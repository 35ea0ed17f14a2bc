//! The candy machine: its state, the owner's setters, the queries and the mint.
use vstd::prelude::*;

use crate::entropy::{draw_index, range_random};
use crate::fee::{fee_share, payment_accepted, sent_native_token_balance_ok, split_fee};
use crate::inventory::{
    decrease_count, decremented_at, find_prefix, has_prefix, is_first_prefix, no_empty_buckets,
    total_count,
};
use crate::types::{
    AssetInfo, BlockInfo, Coin, Config, ConfigResponse, ContractError, InstantiateMsg,
    RemainingToken, Whitelist, FEE_SCALE,
};
use crate::whitelist::{
    decrease_whitelist_count, delist, entry_eligible, is_valid_whitelist, keys_unique, lookup,
    query_whitelist_address as lookup_entry, upsert,
};

verus! {

/// The whole persisted state of one candy machine.
#[derive(Debug)]
pub struct CandyMachine {
    pub config: Config,
    /// The inventory ledger.
    pub tokens: Vec<RemainingToken>,
    pub whitelists: Vec<Whitelist>,
    pub last_minter: String,
    pub last_token_id: String,
}

/// A mint request: who asks, what they attach, and the block it runs in.
#[derive(Debug)]
pub struct MintRequest {
    pub sender: String,
    pub funds: Vec<Coin>,
    pub block: BlockInfo,
}

/// An instruction that a successful mint hands to the host.
#[derive(Debug)]
pub enum MintMessage {
    /// Pay `amount` of `asset` to `recipient`.
    Payment { asset: AssetInfo, amount: u128, recipient: String },
    /// Transfer `token_id` of the NFT contract `contract_addr` to `recipient`.
    TransferNft { contract_addr: String, token_id: String, recipient: String },
}

/// What a mint step asks for next.
#[derive(Debug)]
pub enum MintStep {
    /// List the held token ids after `start_after`, and call the mint again with
    /// that page added.
    Query { start_after: String },
    /// The mint is done: `token_id` goes to the requester.
    Complete { token_id: String, messages: Vec<MintMessage> },
}

/// The ids among which the token is drawn, once the pages hold enough: the
/// first page where it is not empty, else the second.
pub open spec fn candidates(pages: Seq<Vec<String>>) -> Option<Seq<String>> {
    if pages.len() == 0 {
        None
    } else if pages[0]@.len() > 0 {
        Some(pages[0]@)
    } else if pages.len() == 1 {
        None
    } else {
        Some(pages[1]@)
    }
}

/// The bucket prefix of a token id: its first character.
pub open spec fn first_char(id: Seq<char>) -> Seq<char> {
    if id.len() == 0 {
        id
    } else {
        id.subrange(0, 1)
    }
}

/// The buckets of `s` that hold at least one item, in order.
pub open spec fn nonempty_buckets(s: Seq<RemainingToken>) -> Seq<RemainingToken> {
    s.filter(|t: RemainingToken| t.count > 0)
}

/// The instructions of a successful mint of `token_id` by `sender`.
pub open spec fn mint_messages(c: Config, sender: String, token_id: String) -> Seq<MintMessage> {
    let amount = c.mint_asset.amount;
    let fee = fee_share(c.protocol_fee, amount);
    let transfer = MintMessage::TransferNft {
        contract_addr: c.token_addr,
        token_id,
        recipient: sender,
    };
    let creator = MintMessage::Payment {
        asset: c.mint_asset.info,
        amount: (amount - fee) as u128,
        recipient: c.creator,
    };
    let protocol = MintMessage::Payment {
        asset: c.mint_asset.info,
        amount: fee as u128,
        recipient: c.collector,
    };
    if amount == 0 {
        seq![transfer]
    } else if fee > 0 {
        seq![creator, protocol, transfer]
    } else {
        seq![creator, transfer]
    }
}

/// `b` follows from `a` by one successful mint: one item less in the ledger and
/// in the token count.
pub open spec fn mint_completed(a: CandyMachine, b: CandyMachine) -> bool {
    &&& total_count(b.tokens@) + 1 == total_count(a.tokens@)
    &&& b.config.total_token_count + 1 == a.config.total_token_count
}

/// Number of completed mints in a run of mint calls.
pub open spec fn completed_count(completed: Seq<bool>) -> int
    decreases completed.len(),
{
    if completed.len() == 0 {
        0
    } else {
        completed_count(completed.drop_last()) + if completed.last() {
            1int
        } else {
            0int
        }
    }
}

/// `b` follows from `a` by one mint call: a completed mint when `completed`,
/// else a call that changed nothing (a refusal or a request for a page).
pub open spec fn mint_call(a: CandyMachine, b: CandyMachine, completed: bool) -> bool {
    if completed {
        mint_completed(a, b)
    } else {
        b == a
    }
}

/// Over any run of mint calls, the items left plus the mints completed stay
/// equal to the initial inventory, and so does the token count.
pub proof fn lemma_inventory_conservation(states: Seq<CandyMachine>, completed: Seq<bool>)
    requires
        states.len() > 0,
        completed.len() == states.len() - 1,
        forall|i: int|
            0 <= i < completed.len() ==> #[trigger] mint_call(states[i], states[i + 1], completed[i]),
    ensures
        total_count(states.last().tokens@) + completed_count(completed) == total_count(
            states[0].tokens@,
        ),
        states.last().config.total_token_count + completed_count(completed)
            == states[0].config.total_token_count,
    decreases states.len(),
{
    if states.len() > 1 {
        let prefix = states.drop_last();
        let done = completed.drop_last();
        assert forall|i: int| 0 <= i < done.len() implies #[trigger] mint_call(
            prefix[i],
            prefix[i + 1],
            done[i],
        ) by {
            assert(mint_call(states[i], states[i + 1], completed[i]));
        }
        lemma_inventory_conservation(prefix, done);
        let k = states.len() - 2;
        assert(mint_call(states[k], states[k + 1], completed[k]));
    }
}

/// Under the whitelist, a requester whose allowance in the current round is
/// spent (or who has none) is refused with `NotWhitelisted`, so no allowance is
/// ever taken below zero.
pub proof fn lemma_spent_allowance_refused(m: CandyMachine, req: MintRequest)
    requires
        m.wf(),
        m.config.enable_whitelist,
        !(lookup(m.whitelists@, req.sender@, m.config.round) matches Some(w) && w.count > 0),
    ensures
        m.mint_refusal(req) == Some(ContractError::NotWhitelisted),
{
}

impl CandyMachine {
    /// The machine's invariant: no empty bucket, one whitelist entry per key,
    /// and a fee rate of at most one.
    pub open spec fn wf(&self) -> bool {
        &&& no_empty_buckets(self.tokens@)
        &&& keys_unique(self.whitelists@)
        &&& self.config.protocol_fee <= FEE_SCALE
    }

    /// Why the mint of `req` is refused before any draw, if it is.
    pub open spec fn mint_refusal(&self, req: MintRequest) -> Option<ContractError> {
        let c = self.config;
        if c.enable_whitelist && !entry_eligible(self.whitelists@, req.sender@, c.round, c.round) {
            Some(ContractError::NotWhitelisted)
        } else if !c.is_open {
            Some(ContractError::MintingClosed)
        } else if c.mint_asset.amount != 0 && !payment_accepted(c.mint_asset, req.funds@) {
            Some(ContractError::InsufficientPayment)
        } else if self.tokens@.len() == 0 || c.total_token_count == 0 {
            Some(ContractError::NoInventoryRemaining)
        } else {
            None
        }
    }

    /// An index drawn in `[0, range)` for `req` from the current cursor.
    pub open spec fn draw(&self, req: MintRequest, range: int) -> int {
        draw_index(req.sender@, self.last_minter@, self.last_token_id@, req.block, range as usize)
            as int
    }

    /// The prefix of the bucket drawn for `req`.
    pub open spec fn drawn_prefix(&self, req: MintRequest) -> Seq<char> {
        self.tokens@[self.draw(req, self.tokens@.len() - 1)].prefix@
    }

    /// The token drawn for `req` among `ids`.
    pub open spec fn drawn_token(&self, req: MintRequest, ids: Seq<String>) -> String {
        ids[self.draw(req, ids.len() - 1)]
    }

    /// The token drawn for `req` once `pages` hold a page with ids.
    pub open spec fn drawn_from(&self, req: MintRequest, pages: Seq<Vec<String>>) -> Option<String> {
        match candidates(pages) {
            Some(ids) => if ids.len() > 0 {
                Some(self.drawn_token(req, ids))
            } else {
                None
            },
            None => None,
        }
    }

    /// `next` is this machine after `req` minted `token_id`: the token's bucket
    /// loses an item, the token count drops by one, the cursor moves to the
    /// requester and the token, and under the whitelist the requester's
    /// allowance in the current round drops by one.
    pub open spec fn minted(&self, next: CandyMachine, req: MintRequest, token_id: String) -> bool {
        let c = self.config;
        &&& mint_completed(*self, next)
        &&& exists|i: int|
            is_first_prefix(self.tokens@, first_char(token_id@), i) && next.tokens@
                == decremented_at(self.tokens@, i)
        &&& next.config == (Config { total_token_count: (c.total_token_count - 1) as u128, ..c })
        &&& next.last_minter == req.sender
        &&& next.last_token_id == token_id
        &&& if c.enable_whitelist {
            forall|a: Seq<char>, k: u64|
                #![trigger lookup(next.whitelists@, a, k)]
                lookup(next.whitelists@, a, k) == if a == req.sender@ && k == c.round {
                    Some(
                        Whitelist {
                            addr: req.sender,
                            round: c.round,
                            count: (lookup(self.whitelists@, a, k)->Some_0.count - 1) as u64,
                        },
                    )
                } else {
                    lookup(self.whitelists@, a, k)
                }
        } else {
            next.whitelists == self.whitelists
        }
    }

    /// A new machine owned by `sender`: closed, in round one, with an empty
    /// ledger and whitelist, and a cursor of no minter and id `"0"`.
    pub fn instantiate(sender: &String, msg: InstantiateMsg) -> (r: CandyMachine)
        requires
            msg.protocol_fee <= FEE_SCALE,
        ensures
            r.wf(),
            r.config == (Config {
                owner: *sender,
                creator: msg.creator,
                token_addr: msg.token_addr,
                protocol_fee: msg.protocol_fee,
                mint_asset: msg.mint_asset,
                collector: msg.collector,
                enable_whitelist: msg.enable_whitelist,
                total_supply: msg.total_supply,
                total_token_count: msg.total_token_count,
                is_open: false,
                round: 1,
            }),
            r.tokens@.len() == 0,
            r.whitelists@.len() == 0,
            r.last_minter@.len() == 0,
            r.last_token_id@ == seq!['0'],
    {
        proof {
            reveal_strlit("0");
        }
        let config = Config {
            owner: sender.clone(),
            creator: msg.creator,
            token_addr: msg.token_addr,
            protocol_fee: msg.protocol_fee,
            mint_asset: msg.mint_asset,
            collector: msg.collector,
            enable_whitelist: msg.enable_whitelist,
            total_supply: msg.total_supply,
            total_token_count: msg.total_token_count,
            is_open: false,
            round: 1,
        };
        CandyMachine {
            config,
            tokens: Vec::new(),
            whitelists: Vec::new(),
            last_minter: String::new(),
            last_token_id: String::from_str("0"),
        }
    }

    /// Succeeds exactly when `sender` is the owner.
    pub fn only_owner(&self, sender: &String) -> (r: Result<bool, ContractError>)
        ensures
            sender@ == self.config.owner@ ==> r == Ok::<bool, ContractError>(true),
            sender@ != self.config.owner@ ==> r == Err::<bool, ContractError>(
                ContractError::Unauthorized,
            ),
    {
        if self.config.owner != *sender {
            return Err(ContractError::Unauthorized);
        }
        Ok(true)
    }

    /// The owner opens or closes minting, switches the whitelist and sets the round.
    pub fn set_config(&mut self, sender: &String, is_open: bool, enable_whitelist: bool, round: u64) -> (r:
        Result<(), ContractError>)
        ensures
            r is Err <==> sender@ != old(self).config.owner@,
            r is Err ==> r == Err::<(), ContractError>(ContractError::Unauthorized) && *final(self)
                == *old(self),
            r is Ok ==> final(self).config == (Config {
                is_open,
                enable_whitelist,
                round,
                ..old(self).config
            }),
            final(self).tokens == old(self).tokens,
            final(self).whitelists == old(self).whitelists,
            final(self).last_minter == old(self).last_minter,
            final(self).last_token_id == old(self).last_token_id,
    {
        self.only_owner(sender)?;
        self.config.is_open = is_open;
        self.config.enable_whitelist = enable_whitelist;
        self.config.round = round;
        Ok(())
    }

    /// The owner points the machine at another NFT contract.
    pub fn set_nft_address(&mut self, sender: &String, addr: String) -> (r: Result<(), ContractError>)
        ensures
            r is Err <==> sender@ != old(self).config.owner@,
            r is Err ==> r == Err::<(), ContractError>(ContractError::Unauthorized) && *final(self)
                == *old(self),
            r is Ok ==> final(self).config == (Config { token_addr: addr, ..old(self).config }),
            final(self).tokens == old(self).tokens,
            final(self).whitelists == old(self).whitelists,
            final(self).last_minter == old(self).last_minter,
            final(self).last_token_id == old(self).last_token_id,
    {
        self.only_owner(sender)?;
        self.config.token_addr = addr;
        Ok(())
    }

    /// The owner seeds the inventory ledger. Buckets without items are left
    /// out, so that the ledger holds no empty bucket.
    pub fn set_random_seeds(&mut self, sender: &String, seeds: Vec<RemainingToken>) -> (r: Result<
        (),
        ContractError,
    >)
        requires
            old(self).wf(),
        ensures
            final(self).wf(),
            r is Err <==> sender@ != old(self).config.owner@,
            r is Err ==> r == Err::<(), ContractError>(ContractError::Unauthorized) && *final(self)
                == *old(self),
            r is Ok ==> final(self).tokens@ == nonempty_buckets(seeds@),
            final(self).config == old(self).config,
            final(self).whitelists == old(self).whitelists,
            final(self).last_minter == old(self).last_minter,
            final(self).last_token_id == old(self).last_token_id,
    {
        self.only_owner(sender)?;
        let mut kept: Vec<RemainingToken> = Vec::new();
        let mut i: usize = 0;
        proof {
            assert(seeds@.subrange(0, 0) =~= Seq::<RemainingToken>::empty());
            reveal(Seq::filter);
        }
        while i < seeds.len()
            invariant
                i <= seeds@.len(),
                kept@ == nonempty_buckets(seeds@.subrange(0, i as int)),
                no_empty_buckets(kept@),
            decreases seeds@.len() - i,
        {
            proof {
                assert(seeds@.subrange(0, i + 1).drop_last() =~= seeds@.subrange(0, i as int));
                reveal(Seq::filter);
            }
            let ghost before = kept@;
            if seeds[i].count > 0 {
                kept.push(seeds[i].duplicate());
            }
            i = i + 1;
            proof {
                let s1 = seeds@.subrange(0, i as int);
                assert(s1.drop_last() =~= seeds@.subrange(0, i - 1));
                assert(s1.last() == seeds@[i - 1]);
                reveal(Seq::filter);
                assert(before == nonempty_buckets(s1.drop_last()));
                if seeds@[i - 1].count > 0 {
                    assert(kept@ =~= before.push(seeds@[i - 1]));
                } else {
                    assert(kept@ =~= before);
                }
                assert(kept@ =~= nonempty_buckets(s1));
            }
        }
        assert(seeds@.subrange(0, seeds@.len() as int) =~= seeds@);
        self.tokens = kept;
        Ok(())
    }

    /// The owner sets the allowance of `register_addr` in `round` to `count`,
    /// or, with `is_delist` set, removes that entry (which must exist).
    pub fn update_whitelist(
        &mut self,
        sender: &String,
        register_addr: &String,
        count: u64,
        round: u64,
        is_delist: Option<bool>,
    ) -> (r: Result<(), ContractError>)
        requires
            old(self).wf(),
        ensures
            final(self).wf(),
            sender@ != old(self).config.owner@ ==> r == Err::<(), ContractError>(
                ContractError::Unauthorized,
            ),
            sender@ == old(self).config.owner@ && is_delist == Some(true) && lookup(
                old(self).whitelists@,
                register_addr@,
                round,
            ) is None ==> r == Err::<(), ContractError>(ContractError::AddressNotFound),
            r is Err ==> final(self).whitelists@ == old(self).whitelists@,
            r is Ok ==> sender@ == old(self).config.owner@,
            sender@ == old(self).config.owner@ && (is_delist != Some(true) || lookup(
                old(self).whitelists@,
                register_addr@,
                round,
            ) is Some) ==> r is Ok,
            r is Ok ==> forall|a: Seq<char>, k: u64|
                #![trigger lookup(final(self).whitelists@, a, k)]
                lookup(final(self).whitelists@, a, k) == if a == register_addr@ && k == round {
                    if is_delist == Some(true) {
                        None
                    } else {
                        Some(Whitelist { addr: *register_addr, round, count })
                    }
                } else {
                    lookup(old(self).whitelists@, a, k)
                },
            r is Ok ==> is_delist == Some(true) ==> lookup(
                old(self).whitelists@,
                register_addr@,
                round,
            ) is Some,
            final(self).config == old(self).config,
            final(self).tokens == old(self).tokens,
            final(self).last_minter == old(self).last_minter,
            final(self).last_token_id == old(self).last_token_id,
    {
        self.only_owner(sender)?;
        let is_delist = match is_delist {
            Some(b) => b,
            None => false,
        };
        if is_delist {
            delist(&mut self.whitelists, register_addr, round)
        } else {
            upsert(&mut self.whitelists, register_addr, round, count);
            Ok(())
        }
    }

    /// One step of a mint by `req`.
    ///
    /// `pages` holds the pages of token ids that the NFT contract listed so far
    /// for this mint (held by the machine, in order). With none, the checks run,
    /// a bucket is drawn and the step asks for the ids after its prefix. Where
    /// that page is empty the step asks again for ids from the start. Once a
    /// page with ids is there, a token is drawn among them, its bucket (the
    /// token id's first character) loses an item, the fee is split and the
    /// state is updated. Only a completed mint changes the machine.
    pub fn mint(&mut self, req: &MintRequest, pages: &Vec<Vec<String>>) -> (r: Result<
        MintStep,
        ContractError,
    >)
        requires
            old(self).wf(),
            pages@.len() <= 2,
        ensures
            final(self).wf(),
            old(self).mint_refusal(*req) matches Some(e) ==> r == Err::<MintStep, ContractError>(e),
            old(self).mint_refusal(*req) is None && candidates(pages@) is None ==> (r matches Ok(
                MintStep::Query { start_after },
            ) && start_after@ == if pages@.len() == 0 {
                old(self).drawn_prefix(*req)
            } else {
                Seq::<char>::empty()
            }),
            old(self).mint_refusal(*req) is None && candidates(pages@) == Some(Seq::<String>::empty())
                ==> r == Err::<MintStep, ContractError>(ContractError::NoInventoryRemaining),
            old(self).mint_refusal(*req) is None && old(self).drawn_from(*req, pages@) is Some
                && !has_prefix(
                old(self).tokens@,
                first_char(old(self).drawn_from(*req, pages@)->Some_0@),
            ) ==> r == Err::<MintStep, ContractError>(ContractError::PrefixNotFound),
            old(self).mint_refusal(*req) is None && old(self).drawn_from(*req, pages@) is Some
                && has_prefix(
                old(self).tokens@,
                first_char(old(self).drawn_from(*req, pages@)->Some_0@),
            ) ==> (r matches Ok(MintStep::Complete { token_id, messages }) && Some(token_id)
                == old(self).drawn_from(*req, pages@) && messages@ == mint_messages(
                old(self).config,
                req.sender,
                token_id,
            )),
            r matches Ok(MintStep::Complete { token_id, messages }) ==> old(self).minted(
                *final(self),
                *req,
                token_id,
            ),
            !(r matches Ok(MintStep::Complete { .. })) ==> *final(self) == *old(self),
    {
        if self.config.enable_whitelist {
            let round = self.config.round;
            if !is_valid_whitelist(&self.whitelists, &req.sender, round, round) {
                return Err(ContractError::NotWhitelisted);
            }
        }
        if !self.config.is_open {
            return Err(ContractError::MintingClosed);
        }
        if self.config.mint_asset.amount != 0 {
            if !sent_native_token_balance_ok(&self.config.mint_asset, &req.funds) {
                return Err(ContractError::InsufficientPayment);
            }
        }
        let n = self.tokens.len();
        if n == 0 || self.config.total_token_count == 0 {
            return Err(ContractError::NoInventoryRemaining);
        }
        let bucket_index = range_random(
            &req.block,
            &req.sender,
            &self.last_minter,
            &self.last_token_id,
            n - 1,
        );
        if pages.len() == 0 {
            return Ok(MintStep::Query { start_after: self.tokens[bucket_index].prefix.clone() });
        }
        let ids: &Vec<String> = if pages[0].len() > 0 {
            &pages[0]
        } else if pages.len() == 1 {
            return Ok(MintStep::Query { start_after: String::new() });
        } else {
            &pages[1]
        };
        if ids.len() == 0 {
            return Err(ContractError::NoInventoryRemaining);
        }
        let token_index = range_random(
            &req.block,
            &req.sender,
            &self.last_minter,
            &self.last_token_id,
            ids.len() - 1,
        );
        let token_id = ids[token_index].clone();
        let prefix = if token_id.as_str().unicode_len() == 0 {
            String::new()
        } else {
            String::from_str(token_id.as_str().substring_char(0, 1))
        };
        assert(prefix@ =~= first_char(token_id@));
        if find_prefix(&self.tokens, &prefix).is_none() {
            return Err(ContractError::PrefixNotFound);
        }
        let ghost before = *self;
        let mut messages: Vec<MintMessage> = Vec::new();
        let amount = self.config.mint_asset.amount;
        if amount != 0 {
            let (protocol_fee, seller_amount) = split_fee(self.config.protocol_fee, amount);
            messages.push(
                MintMessage::Payment {
                    asset: self.config.mint_asset.info.duplicate(),
                    amount: seller_amount,
                    recipient: self.config.creator.clone(),
                },
            );
            if protocol_fee > 0 {
                messages.push(
                    MintMessage::Payment {
                        asset: self.config.mint_asset.info.duplicate(),
                        amount: protocol_fee,
                        recipient: self.config.collector.clone(),
                    },
                );
            }
        }
        messages.push(
            MintMessage::TransferNft {
                contract_addr: self.config.token_addr.clone(),
                token_id: token_id.clone(),
                recipient: req.sender.clone(),
            },
        );
        assert(messages@ =~= mint_messages(before.config, req.sender, token_id));
        if self.config.enable_whitelist {
            let round = self.config.round;
            match decrease_whitelist_count(&mut self.whitelists, &req.sender, round) {
                Ok(()) => {},
                Err(e) => {
                    return Err(e);
                },
            }
        }
        match decrease_count(&mut self.tokens, &prefix) {
            Ok(()) => {},
            Err(e) => {
                return Err(e);
            },
        }
        self.config.total_token_count = self.config.total_token_count - 1;
        self.last_minter = req.sender.clone();
        self.last_token_id = token_id.clone();
        Ok(MintStep::Complete { token_id, messages })
    }

    /// The configuration.
    pub fn query_config(&self) -> (r: ConfigResponse)
        ensures
            r == (ConfigResponse {
                owner: self.config.owner,
                token_addr: self.config.token_addr,
                mint_asset: self.config.mint_asset,
                round: self.config.round,
                protocol_fee: self.config.protocol_fee,
                creator: self.config.creator,
                collector: self.config.collector,
                total_token_count: self.config.total_token_count,
                enable_whitelist: self.config.enable_whitelist,
                total_supply: self.config.total_supply,
                is_open: self.config.is_open,
            }),
    {
        ConfigResponse {
            owner: self.config.owner.clone(),
            token_addr: self.config.token_addr.clone(),
            mint_asset: self.config.mint_asset.duplicate(),
            round: self.config.round,
            protocol_fee: self.config.protocol_fee,
            creator: self.config.creator.clone(),
            collector: self.config.collector.clone(),
            total_token_count: self.config.total_token_count,
            enable_whitelist: self.config.enable_whitelist,
            total_supply: self.config.total_supply,
            is_open: self.config.is_open,
        }
    }

    /// The whitelist entry of `addr` in the current round.
    pub fn query_whitelist_single(&self, addr: &String) -> (r: Option<Whitelist>)
        requires
            self.wf(),
        ensures
            r == lookup(self.whitelists@, addr@, self.config.round),
    {
        lookup_entry(&self.whitelists, addr, self.config.round)
    }

    /// The whitelist entry of `addr` in `round`.
    pub fn query_whitelist_address(&self, addr: &String, round: u64) -> (r: Option<Whitelist>)
        requires
            self.wf(),
        ensures
            r == lookup(self.whitelists@, addr@, round),
    {
        lookup_entry(&self.whitelists, addr, round)
    }

    /// The inventory ledger.
    pub fn query_seed(&self) -> (r: Vec<RemainingToken>)
        ensures
            r@ == self.tokens@,
    {
        let mut out: Vec<RemainingToken> = Vec::new();
        let mut i: usize = 0;
        while i < self.tokens.len()
            invariant
                i <= self.tokens@.len(),
                out@ == self.tokens@.subrange(0, i as int),
            decreases self.tokens@.len() - i,
        {
            out.push(self.tokens[i].duplicate());
            i = i + 1;
            assert(out@ =~= self.tokens@.subrange(0, i as int));
        }
        assert(out@ =~= self.tokens@);
        out
    }
}

} // verus!

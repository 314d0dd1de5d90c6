//! The client side of the SmolFS module: what a client's transactions
//! amount to, the request it sends to store a backup, and its local reads.

use vstd::prelude::*;
use vstd::string::*;

use crate::ledger::TransactionItemAmount;
use crate::request::{first_two_words, is_ascii_ws, skip_ws, token_end};
use crate::smolfs::{SmolFSInput, SmolFSOutput};
use crate::smolfs_config::{SmolFSClientConfig, SmolFSDecoder};
use crate::smolfs_db::SmolFSDb;

verus! {

/// The request parameter that asks a member to store `v` under `k`.
pub open spec fn put_request(k: Seq<char>, v: Seq<char>) -> Seq<char> {
    k + " "@ + v
}

/// A word: non-empty and free of ASCII whitespace.
pub open spec fn is_word(w: Seq<char>) -> bool {
    w.len() > 0 && forall|i: int| 0 <= i < w.len() ==> !is_ascii_ws(#[trigger] w[i])
}

proof fn lemma_token_end_run(s: Seq<char>, i: int, e: int)
    requires
        0 <= i <= e <= s.len(),
        forall|j: int| i <= j < e ==> !is_ascii_ws(#[trigger] s[j]),
        e == s.len() || is_ascii_ws(s[e]),
    ensures
        token_end(s, i) == e,
    decreases e - i,
{
    if i < e {
        lemma_token_end_run(s, i + 1, e);
    }
}

/// A request made by `put_request` from two words reads back as those
/// two words.
pub proof fn lemma_put_request_round_trip(k: Seq<char>, v: Seq<char>)
    requires
        is_word(k),
        is_word(v),
    ensures
        first_two_words(put_request(k, v)) == Some((k, v)),
{
    let s = put_request(k, v);
    let n = k.len() as int;
    assert(" "@ == seq![' ']) by {
        reveal_strlit(" ");
    }
    assert(s.len() == n + 1 + v.len());
    assert forall|j: int| 0 <= j < n implies s[j] == k[j] by {}
    assert(s[n] == ' ');
    assert forall|j: int| n + 1 <= j < s.len() implies s[j] == v[j - n - 1] by {}
    assert(skip_ws(s, 0) == 0) by {
        assert(s[0] == k[0]);
    }
    lemma_token_end_run(s, 0, n);
    assert(skip_ws(s, n + 1) == n + 1) by {
        assert(s[n + 1] == v[0]);
    }
    assert(skip_ws(s, n) == n + 1);
    assert forall|j: int| n + 1 <= j < s.len() implies !is_ascii_ws(#[trigger] s[j]) by {
        assert(s[j] == v[j - n - 1]);
    }
    lemma_token_end_run(s, n + 1, s.len() as int);
    assert(s.subrange(0, n) =~= k);
    assert(s.subrange(n + 1, s.len() as int) =~= v);
}

/// The SmolFS module as one client sees it.
#[derive(Clone, Debug, PartialEq, Eq)]
pub struct SmolFSClient {
    pub config: SmolFSClientConfig,
}

impl SmolFSClient {
    pub fn decoder(&self) -> SmolFSDecoder {
        SmolFSDecoder
    }

    /// An input carries no amount and no fee.
    pub fn input_amount(&self, input: &SmolFSInput) -> (r: TransactionItemAmount)
        ensures
            r == TransactionItemAmount::spec_zero(),
    {
        TransactionItemAmount::zero()
    }

    /// An output carries no amount and no fee.
    pub fn output_amount(&self, output: &SmolFSOutput) -> (r: TransactionItemAmount)
        ensures
            r == TransactionItemAmount::spec_zero(),
    {
        TransactionItemAmount::zero()
    }

    /// The parameter of the put request that stores `backup` under `pubkey`.
    pub fn add_entry_request(&self, pubkey: &String, backup: &String) -> (r: String)
        ensures
            r@ == put_request(pubkey@, backup@),
    {
        let mut r = pubkey.clone();
        r.append(" ");
        r.append(backup.as_str());
        r
    }

    /// The backup stored locally under `pubkey`, or the empty string.
    pub fn get_entry(&self, db: &SmolFSDb, pubkey: String) -> (r: String)
        requires
            db.wf(),
        ensures
            r@ == (if db.entries().contains_key(pubkey@) {
                db.entries()[pubkey@]
            } else {
                Seq::<char>::empty()
            }),
    {
        match db.get_entry(&pubkey) {
            Some(v) => v,
            None => String::new(),
        }
    }
}

} // verus!

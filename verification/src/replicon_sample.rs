//! The roles of the sharded networking sample: which server a process runs, and the client
//! id a shard uses towards the backend.

use vstd::prelude::*;
use crate::assets::str_views;
use crate::text::{has_prefix, starts_with, str_eq};
use vstd::string::StringSliceAdditionalSpecFns;

verus! {

/// The netcode protocol of the sample.
pub const PROTOCOL_ID: u64 = 0x123456789ABCDEF0;
/// The backend's port.
pub const DEFAULT_PORT: u16 = 5000;

/// What a process of the sample runs.
#[derive(Debug)]
pub enum SampleRole {
    Backend,
    Shard { shard_id: String },
    Client,
}

/// The shard id given by the first `shard-id=` argument, else `shard-1`.
pub open spec fn shard_id_spec(args: Seq<Seq<char>>) -> Seq<char>
    decreases args.len(),
{
    if args.len() == 0 {
        "shard-1"@
    } else if has_prefix(args[0], "shard-id="@) {
        args[0].subrange(9, args[0].len() as int)
    } else {
        shard_id_spec(args.drop_first())
    }
}

/// The role: `backend` if any argument says so, else `shard` (with its id), else a client.
pub open spec fn role_is(args: Seq<Seq<char>>, r: SampleRole) -> bool {
    if args.contains("backend"@) {
        r is Backend
    } else if args.contains("shard"@) {
        r matches SampleRole::Shard { shard_id } && shard_id@ == shard_id_spec(args)
    } else {
        r is Client
    }
}

/// Whether some argument equals `word`.
fn has_arg(args: &Vec<String>, word: &str) -> (r: bool)
    ensures
        r == str_views(args@).contains(word@),
{
    let mut i: usize = 0;
    while i < args.len()
        invariant
            i <= args@.len(),
            forall|j: int| 0 <= j < i ==> #[trigger] args@[j]@ != word@,
        decreases args.len() - i,
    {
        if str_eq(args[i].as_str(), word) {
            assert(str_views(args@)[i as int] == word@);
            return true;
        }
        i = i + 1;
    }
    proof {
        if str_views(args@).contains(word@) {
            let k = choose|k: int| 0 <= k < str_views(args@).len() && str_views(args@)[k] == word@;
            assert(args@[k]@ == word@);
        }
    }
    false
}

/// The shard id from the arguments (see `shard_id_spec`).
pub fn shard_id_from_args(args: &Vec<String>) -> (r: String)
    ensures
        r@ == shard_id_spec(str_views(args@)),
{
    proof {
        reveal_strlit("shard-id=");
    }
    let ghost s = str_views(args@);
    let mut i: usize = 0;
    assert(s.skip(0) =~= s);
    while i < args.len()
        invariant
            s == str_views(args@),
            i <= s.len(),
            shard_id_spec(s) == shard_id_spec(s.skip(i as int)),
        decreases args.len() - i,
    {
        let ghost rest = s.skip(i as int);
        assert(rest[0] == args@[i as int]@);
        assert(rest.drop_first() =~= s.skip(i + 1));
        let a = args[i].as_str();
        proof {
            reveal_strlit("shard-id=");
        }
        if starts_with(a, "shard-id=") {
            let n = a.unicode_len();
            let r = a.substring_char(9, n);
            return r.to_string();
        }
        i = i + 1;
    }
    "shard-1".to_string()
}

/// Picks the role of a process from its arguments.
pub fn select_role(args: &Vec<String>) -> (r: SampleRole)
    ensures
        role_is(str_views(args@), r),
{
    if has_arg(args, "backend") {
        return SampleRole::Backend;
    }
    if has_arg(args, "shard") {
        return SampleRole::Shard { shard_id: shard_id_from_args(args) };
    }
    SampleRole::Client
}

/// The wrapping sum of the bytes.
pub open spec fn wrapping_byte_sum(bytes: Seq<u8>) -> u64
    decreases bytes.len(),
{
    if bytes.len() == 0 {
        0
    } else {
        let acc = wrapping_byte_sum(bytes.drop_last());
        let s = acc + bytes.last();
        if s > u64::MAX { (s - 0x1_0000_0000_0000_0000) as u64 } else { s as u64 }
    }
}

/// The client id of a shard: the wrapping sum of the UTF-8 bytes of its id.
pub fn shard_client_id(shard_id: &str) -> (r: u64)
    ensures
        r == wrapping_byte_sum(shard_id.spec_bytes()),
{
    let bytes = shard_id.as_bytes();
    let ghost b = bytes@;
    let mut acc: u64 = 0;
    let mut i: usize = 0;
    while i < bytes.len()
        invariant
            b == bytes@,
            i <= b.len(),
            acc == wrapping_byte_sum(b.take(i as int)),
        decreases bytes.len() - i,
    {
        assert(b.take(i + 1).drop_last() =~= b.take(i as int));
        assert(b.take(i + 1).last() == b[i as int]);
        let x = bytes[i] as u64;
        if acc > u64::MAX - x {
            acc = x - (u64::MAX - acc) - 1;
        } else {
            acc = acc + x;
        }
        i = i + 1;
    }
    assert(b.take(i as int) =~= b);
    acc
}

/// The shards an entity update from `sender` is relayed to: every connected client but the
/// sender, in order.
pub fn distribute_entity_updates(clients: &Vec<u64>, sender: u64) -> (r: Vec<u64>)
    ensures
        r@ == clients@.filter(|c: u64| c != sender),
{
    let ghost cs = clients@;
    let mut r: Vec<u64> = Vec::new();
    let mut i: usize = 0;
    assert(cs.take(0).filter(|c: u64| c != sender) =~= Seq::<u64>::empty());
    while i < clients.len()
        invariant
            cs == clients@,
            i <= cs.len(),
            r@ == cs.take(i as int).filter(|c: u64| c != sender),
        decreases clients.len() - i,
    {
        let c = clients[i];
        proof {
            assert(cs.take(i + 1).drop_last() =~= cs.take(i as int));
            assert(cs.take(i + 1).last() == c);
            reveal(Seq::filter);
        }
        if c != sender {
            r.push(c);
        }
        i = i + 1;
    }
    assert(cs.take(i as int) =~= cs);
    r
}


} // verus!

//! Liveness-based leader election: among the nodes with a live heartbeat,
//! the master is the one with the lexicographically highest identifier,
//! recomputed statelessly from each liveness snapshot.

use crate::keys::node_id_from_heartbeat_key;
use crate::keys::spec_node_id_suffix;
use vstd::prelude::*;
use vstd::string::*;

verus! {

/// Lexicographic order on character sequences, comparing characters by
/// their Unicode scalar values: `a` sorts at or before `b`.
pub open spec fn lex_le(a: Seq<char>, b: Seq<char>) -> bool
    decreases a.len(),
{
    if a.len() == 0 {
        true
    } else if b.len() == 0 {
        false
    } else if (a[0] as u32) < (b[0] as u32) {
        true
    } else if (b[0] as u32) < (a[0] as u32) {
        false
    } else {
        lex_le(a.drop_first(), b.drop_first())
    }
}

/// `id` is the master of the live set `ids`: it is live, and no live
/// identifier sorts after it.
pub open spec fn is_master_spec(id: Seq<char>, ids: Seq<Seq<char>>) -> bool {
    &&& ids.contains(id)
    &&& forall|j: int| 0 <= j < ids.len() ==> lex_le(#[trigger] ids[j], id)
}

proof fn lemma_char_cast_inj(a: char, b: char)
    requires
        (a as u32) == (b as u32),
    ensures
        a == b,
{
    vstd::utf8::char_u32_cast(a, a as u32);
    vstd::utf8::char_u32_cast(b, b as u32);
}

pub proof fn lemma_lex_le_refl(a: Seq<char>)
    ensures
        lex_le(a, a),
    decreases a.len(),
{
    if a.len() > 0 {
        lemma_lex_le_refl(a.drop_first());
    }
}

pub proof fn lemma_lex_le_total(a: Seq<char>, b: Seq<char>)
    ensures
        lex_le(a, b) || lex_le(b, a),
    decreases a.len(),
{
    if a.len() > 0 && b.len() > 0 && (a[0] as u32) == (b[0] as u32) {
        lemma_lex_le_total(a.drop_first(), b.drop_first());
    }
}

pub proof fn lemma_lex_le_antisym(a: Seq<char>, b: Seq<char>)
    requires
        lex_le(a, b),
        lex_le(b, a),
    ensures
        a == b,
    decreases a.len(),
{
    if a.len() == 0 {
        assert(b.len() == 0);
        assert(a =~= b);
    } else {
        assert(b.len() > 0);
        assert((a[0] as u32) == (b[0] as u32));
        lemma_char_cast_inj(a[0], b[0]);
        lemma_lex_le_antisym(a.drop_first(), b.drop_first());
        assert forall|i: int| 0 <= i < a.len() implies a[i] == b[i] by {
            if i > 0 {
                assert(a[i] == a.drop_first()[i - 1]);
                assert(b[i] == b.drop_first()[i - 1]);
            }
        }
        assert(a =~= b);
    }
}

pub proof fn lemma_lex_le_trans(a: Seq<char>, b: Seq<char>, c: Seq<char>)
    requires
        lex_le(a, b),
        lex_le(b, c),
    ensures
        lex_le(a, c),
    decreases a.len(),
{
    if a.len() > 0 && b.len() > 0 && c.len() > 0 && (a[0] as u32) == (b[0] as u32) && (b[0] as u32)
        == (c[0] as u32) {
        lemma_lex_le_trans(a.drop_first(), b.drop_first(), c.drop_first());
    }
}

/// Two identifiers that are both master of the same live set are equal:
/// the admission check authorizes at most one node at a time.
pub proof fn lemma_master_unique(a: Seq<char>, b: Seq<char>, ids: Seq<Seq<char>>)
    requires
        is_master_spec(a, ids),
        is_master_spec(b, ids),
    ensures
        a == b,
{
    let ja = choose|j: int| 0 <= j < ids.len() && ids[j] == a;
    let jb = choose|j: int| 0 <= j < ids.len() && ids[j] == b;
    assert(lex_le(ids[ja], b));
    assert(lex_le(ids[jb], a));
    lemma_lex_le_antisym(a, b);
}

/// Compare two strings in lexicographic order of their characters.
pub fn str_le(a: &str, b: &str) -> (r: bool)
    ensures
        r == lex_le(a@, b@),
{
    let a_len = a.unicode_len();
    let b_len = b.unicode_len();
    let mut i: usize = 0;
    proof {
        assert(a@.skip(0) =~= a@);
        assert(b@.skip(0) =~= b@);
    }
    loop
        invariant
            i <= a_len,
            i <= b_len,
            a_len == a@.len(),
            b_len == b@.len(),
            lex_le(a@, b@) == lex_le(a@.skip(i as int), b@.skip(i as int)),
        decreases a_len - i,
    {
        if i == a_len {
            return true;
        }
        if i == b_len {
            return false;
        }
        let ca = a.get_char(i);
        let cb = b.get_char(i);
        proof {
            assert(a@.skip(i as int)[0] == a@[i as int]);
            assert(b@.skip(i as int)[0] == b@[i as int]);
            assert(a@.skip(i as int).drop_first() =~= a@.skip(i as int + 1));
            assert(b@.skip(i as int).drop_first() =~= b@.skip(i as int + 1));
        }
        if (ca as u32) < (cb as u32) {
            return true;
        }
        if (cb as u32) < (ca as u32) {
            return false;
        }
        i = i + 1;
    }
}

/// Whether two strings hold the same characters.
pub fn str_eq(a: &str, b: &str) -> (r: bool)
    ensures
        r == (a@ == b@),
{
    let le_ab = str_le(a, b);
    let le_ba = str_le(b, a);
    proof {
        if le_ab && le_ba {
            lemma_lex_le_antisym(a@, b@);
        }
        lemma_lex_le_refl(a@);
    }
    le_ab && le_ba
}

/// The current master of a liveness snapshot: the highest node identifier
/// among the live ones, or nothing when no node is live.
pub fn current_master(node_ids: &Vec<String>) -> (master: Option<String>)
    ensures
        match master {
            Some(m) => is_master_spec(m@, node_ids.deep_view()),
            None => node_ids@.len() == 0,
        },
        master is None <==> node_ids@.len() == 0,
{
    let ghost ids = node_ids.deep_view();
    if node_ids.len() == 0 {
        return None;
    }
    let mut best: String = node_ids[0].clone();
    let ghost mut best_at: int = 0;
    proof {
        assert(ids[0] == node_ids@[0]@);
        lemma_lex_le_refl(best@);
    }
    let mut i: usize = 1;
    while i < node_ids.len()
        invariant
            1 <= i <= node_ids@.len(),
            ids == node_ids.deep_view(),
            ids.len() == node_ids@.len(),
            0 <= best_at < i,
            ids[best_at] == best@,
            forall|j: int| 0 <= j < i ==> lex_le(#[trigger] ids[j], best@),
        decreases node_ids@.len() - i,
    {
        let candidate = &node_ids[i];
        if str_le(best.as_str(), candidate.as_str()) {
            let ghost prev = best@;
            best = candidate.clone();
            proof {
                best_at = i as int;
                assert forall|j: int| 0 <= j < i + 1 implies lex_le(#[trigger] ids[j], best@) by {
                    if j < i {
                        lemma_lex_le_trans(ids[j], prev, best@);
                    } else {
                        lemma_lex_le_refl(best@);
                    }
                }
            }
        } else {
            proof {
                lemma_lex_le_total(best@, ids[i as int]);
            }
        }
        i = i + 1;
    }
    proof {
        assert(ids.contains(best@));
    }
    Some(best)
}

/// Extract the node identifier behind each heartbeat key of a liveness
/// snapshot, in order.
pub fn node_ids_from_heartbeat_keys(keys: &Vec<String>) -> (ids: Vec<String>)
    ensures
        ids@.len() == keys@.len(),
        forall|i: int| 0 <= i < keys@.len() ==> ids@[i]@ == spec_node_id_suffix(
            #[trigger] keys@[i]@,
        ),
{
    let mut ids: Vec<String> = Vec::new();
    let mut i: usize = 0;
    while i < keys.len()
        invariant
            i <= keys@.len(),
            ids@.len() == i,
            forall|j: int| 0 <= j < i ==> ids@[j]@ == spec_node_id_suffix(#[trigger] keys@[j]@),
        decreases keys@.len() - i,
    {
        let id = node_id_from_heartbeat_key(keys[i].as_str());
        ids.push(id);
        i = i + 1;
    }
    ids
}

/// Whether `node_id` is the current master of the liveness snapshot.
pub fn is_master(node_id: &str, node_ids: &Vec<String>) -> (r: bool)
    ensures
        r == is_master_spec(node_id@, node_ids.deep_view()),
{
    let ghost ids = node_ids.deep_view();
    match current_master(node_ids) {
        None => {
            proof {
                assert(!ids.contains(node_id@));
            }
            false
        },
        Some(m) => {
            let r = str_eq(m.as_str(), node_id);
            proof {
                if r {
                    assert(is_master_spec(node_id@, ids));
                } else {
                    if is_master_spec(node_id@, ids) {
                        lemma_master_unique(node_id@, m@, ids);
                    }
                }
            }
            r
        },
    }
}

} // verus!

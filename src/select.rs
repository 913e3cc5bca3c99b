//! Coin selection: which unspent outputs a consolidation spends.

use bitcoin::hashes::sha256::Hash as Sha256;
use std::str::FromStr;
use vstd::prelude::*;

verus! {

/// Weight units that spending one more input costs; a coin worth less than
/// this many units at the target fee rate is not worth consolidating.
pub const INPUT_WEIGHT: u64 = 70;

/// One unspent output of the wallet, as listed by the node.
#[derive(Clone, Debug)]
pub struct Utxo {
    pub txid: String,
    pub output: u32,
    pub amount_msat: u64,
    pub reserved: bool,
    pub confirmed: bool,
}

/// Why no consolidation can be built from the wallet's coins.
#[derive(Clone, Copy, Debug, PartialEq, Eq, Structural)]
pub enum SelectError {
    /// The selected coin at this position of the wallet's list has a
    /// transaction id that is not 64 hexadecimal digits.
    InvalidTxid { index: usize },
    /// Fewer coins qualified than were asked for.
    InsufficientUtxos { current: usize, wanted: usize },
}

#[verifier::external_type_specification]
#[verifier::external_body]
pub struct ExSha256(Sha256);

/// A coin that may be spent at all: neither earmarked nor unconfirmed.
pub open spec fn spendable(u: Utxo) -> bool {
    !u.reserved && u.confirmed
}

/// The order in which coins are visited: ascending amount, ties broken by
/// position in the list.
pub open spec fn precedes(us: Seq<Utxo>, i: int, j: int) -> bool {
    us[i].amount_msat < us[j].amount_msat || (us[i].amount_msat == us[j].amount_msat && i < j)
}

/// A spendable coin at position `i` that is worth at least the reserve floor.
pub open spec fn reaches_floor(us: Seq<Utxo>, floor: u64, i: int) -> bool {
    0 <= i < us.len() && spendable(us[i]) && us[i].amount_msat >= floor
}

/// The coin kept back as the emergency reserve: the first, in visiting order,
/// of those that reach the floor.
pub open spec fn is_reserve(us: Seq<Utxo>, floor: u64, i: int) -> bool {
    &&& reaches_floor(us, floor, i)
    &&& forall|j: int| #[trigger] reaches_floor(us, floor, j) && j != i ==> precedes(us, i, j)
}

/// The coin's value covers the cost of spending it at `feerate`.
pub open spec fn covers_input_cost(amount_msat: u64, feerate: u32) -> bool {
    INPUT_WEIGHT * feerate <= amount_msat
}

/// The coin at position `i` is one that a consolidation spends.
pub open spec fn is_selected(us: Seq<Utxo>, floor: u64, feerate: u32, i: int) -> bool {
    &&& 0 <= i < us.len()
    &&& spendable(us[i])
    &&& !is_reserve(us, floor, i)
    &&& covers_input_cost(us[i].amount_msat, feerate)
}

/// `sel` lists exactly the selected positions, in visiting order.
pub open spec fn is_selection(us: Seq<Utxo>, floor: u64, feerate: u32, sel: Seq<usize>) -> bool {
    &&& forall|k: int| 0 <= k < sel.len() ==> is_selected(us, floor, feerate, #[trigger] sel[k] as int)
    &&& forall|i: int| is_selected(us, floor, feerate, i) ==> sel.contains(i as usize)
    &&& forall|a: int, b: int|
        0 <= a < b < sel.len() ==> precedes(us, #[trigger] sel[a] as int, #[trigger] sel[b] as int)
}

/// The positions of the coins that a consolidation spends, in visiting order.
pub open spec fn selection(us: Seq<Utxo>, floor: u64, feerate: u32) -> Seq<usize> {
    choose|sel: Seq<usize>| is_selection(us, floor, feerate, sel)
}

/// At most one coin is the reserve.
pub proof fn lemma_reserve_unique(us: Seq<Utxo>, floor: u64, i: int, j: int)
    requires
        is_reserve(us, floor, i),
        is_reserve(us, floor, j),
    ensures
        i == j,
{
    assert(reaches_floor(us, floor, i));
    assert(reaches_floor(us, floor, j));
}

fn find_reserve(us: &Vec<Utxo>, floor: u64) -> (r: Option<usize>)
    ensures
        match r {
            Some(i) => is_reserve(us@, floor, i as int),
            None => forall|i: int| !reaches_floor(us@, floor, i),
        },
{
    let mut best: Option<usize> = None;
    let mut i: usize = 0;
    while i < us.len()
        invariant
            i <= us.len(),
            match best {
                Some(b) => {
                    &&& b < i
                    &&& reaches_floor(us@, floor, b as int)
                    &&& forall|j: int|
                        0 <= j < i && #[trigger] reaches_floor(us@, floor, j) && j != b
                            ==> precedes(us@, b as int, j)
                },
                None => forall|j: int| 0 <= j < i ==> !reaches_floor(us@, floor, j),
            },
        decreases us.len() - i,
    {
        let u = &us[i];
        if !u.reserved && u.confirmed && u.amount_msat >= floor {
            match best {
                None => {
                    best = Some(i);
                },
                Some(b) => {
                    if u.amount_msat < us[b].amount_msat {
                        best = Some(i);
                    }
                },
            }
        }
        i += 1;
    }
    best
}

/// Two lists in visiting order that hold the same positions are equal.
proof fn lemma_ordered_unique(us: Seq<Utxo>, s: Seq<usize>, t: Seq<usize>)
    requires
        forall|a: int, b: int|
            0 <= a < b < s.len() ==> precedes(us, #[trigger] s[a] as int, #[trigger] s[b] as int),
        forall|a: int, b: int|
            0 <= a < b < t.len() ==> precedes(us, #[trigger] t[a] as int, #[trigger] t[b] as int),
        forall|x: usize| s.contains(x) <==> t.contains(x),
    ensures
        s == t,
    decreases s.len(),
{
    if s.len() == 0 {
        if t.len() > 0 {
            assert(t.contains(t[0]));
        }
    } else {
        assert(s.contains(s[0]));
        assert(t.len() > 0);
        assert(t.contains(t[0]));
        if s[0] != t[0] {
            let k = choose|k: int| 0 <= k < t.len() && t[k] == s[0];
            let m = choose|m: int| 0 <= m < s.len() && s[m] == t[0];
            assert(precedes(us, t[0] as int, t[k] as int));
            assert(precedes(us, s[0] as int, s[m] as int));
        }
        let s1 = s.drop_first();
        let t1 = t.drop_first();
        assert forall|x: usize| s1.contains(x) <==> t1.contains(x) by {
            if s1.contains(x) {
                let k = choose|k: int| 0 <= k < s1.len() && s1[k] == x;
                assert(s[k + 1] == x);
                if x == s[0] {
                    assert(precedes(us, s[0] as int, s[k + 1] as int));
                }
                assert(s.contains(x));
                let j = choose|j: int| 0 <= j < t.len() && t[j] == x;
                assert(j != 0);
                assert(t1[j - 1] == x);
            }
            if t1.contains(x) {
                let k = choose|k: int| 0 <= k < t1.len() && t1[k] == x;
                assert(t[k + 1] == x);
                if x == t[0] {
                    assert(precedes(us, t[0] as int, t[k + 1] as int));
                }
                assert(t.contains(x));
                let j = choose|j: int| 0 <= j < s.len() && s[j] == x;
                assert(j != 0);
                assert(s1[j - 1] == x);
            }
        }
        assert forall|a: int, b: int| 0 <= a < b < s1.len() implies precedes(
            us,
            #[trigger] s1[a] as int,
            #[trigger] s1[b] as int,
        ) by {
            assert(s1[a] == s[a + 1] && s1[b] == s[b + 1]);
        }
        assert forall|a: int, b: int| 0 <= a < b < t1.len() implies precedes(
            us,
            #[trigger] t1[a] as int,
            #[trigger] t1[b] as int,
        ) by {
            assert(t1[a] == t[a + 1] && t1[b] == t[b + 1]);
        }
        lemma_ordered_unique(us, s1, t1);
        assert(s =~= seq![s[0]].add(s1));
        assert(t =~= seq![t[0]].add(t1));
    }
}

/// Selecting is deterministic: for the same coins, floor and fee rate there
/// is one list of selected positions, so running a consolidation again on an
/// unchanged wallet with the same arguments spends the same coins.
pub proof fn lemma_selection_deterministic(us: Seq<Utxo>, floor: u64, feerate: u32, sel: Seq<usize>)
    requires
        is_selection(us, floor, feerate, sel),
    ensures
        selection(us, floor, feerate) == sel,
        is_selection(us, floor, feerate, selection(us, floor, feerate)),
{
    let other = selection(us, floor, feerate);
    assert(is_selection(us, floor, feerate, other));
    assert forall|x: usize| sel.contains(x) <==> other.contains(x) by {
        if sel.contains(x) {
            let k = choose|k: int| 0 <= k < sel.len() && sel[k] == x;
            assert(is_selected(us, floor, feerate, sel[k] as int));
        }
        if other.contains(x) {
            let k = choose|k: int| 0 <= k < other.len() && other[k] == x;
            assert(is_selected(us, floor, feerate, other[k] as int));
        }
    }
    lemma_ordered_unique(us, sel, other);
}

/// The positions of the coins to consolidate, in ascending amount: every
/// spendable coin that covers its input cost at `feerate`, except one reserve
/// coin, the smallest of those worth at least `emergency_msat`.
pub fn select_utxos(utxos: &Vec<Utxo>, emergency_msat: u64, feerate: u32) -> (r: Vec<usize>)
    ensures
        is_selection(utxos@, emergency_msat, feerate, r@),
        r@ == selection(utxos@, emergency_msat, feerate),
        forall|k: int|
            0 <= k < r.len() ==> spendable(utxos@[#[trigger] r@[k] as int]) && INPUT_WEIGHT * feerate
                <= utxos@[r@[k] as int].amount_msat,
{
    let reserve = find_reserve(utxos, emergency_msat);
    let cost: u64 = INPUT_WEIGHT * (feerate as u64);
    let ghost us = utxos@;
    let mut r: Vec<usize> = Vec::new();
    let mut i: usize = 0;
    while i < utxos.len()
        invariant
            i <= utxos.len(),
            us == utxos@,
            cost == INPUT_WEIGHT * feerate,
            match reserve {
                Some(b) => is_reserve(us, emergency_msat, b as int),
                None => forall|j: int| !reaches_floor(us, emergency_msat, j),
            },
            forall|k: int|
                0 <= k < r.len() ==> #[trigger] r@[k] < i && is_selected(
                    us,
                    emergency_msat,
                    feerate,
                    r@[k] as int,
                ),
            forall|j: int| 0 <= j < i && is_selected(us, emergency_msat, feerate, j) ==> r@.contains(j as usize),
            forall|a: int, b: int|
                0 <= a < b < r.len() ==> precedes(us, #[trigger] r@[a] as int, #[trigger] r@[b] as int),
        decreases utxos.len() - i,
    {
        let amount = utxos[i].amount_msat;
        let exempt = match reserve {
            Some(b) => b == i,
            None => false,
        };
        proof {
            if is_reserve(us, emergency_msat, i as int) {
                match reserve {
                    Some(b) => lemma_reserve_unique(us, emergency_msat, b as int, i as int),
                    None => {},
                }
            }
        }
        if !utxos[i].reserved && utxos[i].confirmed && !exempt && cost <= amount {
            let mut p: usize = 0;
            while p < r.len() && utxos[r[p]].amount_msat <= amount
                invariant
                    p <= r.len(),
                    i < utxos.len(),
                    us == utxos@,
                    amount == us[i as int].amount_msat,
                    forall|k: int| 0 <= k < r.len() ==> #[trigger] r@[k] < i,
                    forall|q: int| 0 <= q < p ==> us[#[trigger] r@[q] as int].amount_msat <= amount,
                decreases r.len() - p,
            {
                p += 1;
            }
            let ghost old_r = r@;
            r.insert(p, i);
            proof {
                old_r.insert_ensures(p as int, i);
                assert forall|k: int|
                    0 <= k < r.len() implies #[trigger] r@[k] < i + 1 && is_selected(
                    us,
                    emergency_msat,
                    feerate,
                    r@[k] as int,
                ) by {
                    if k > p {
                        assert(r@[k] == old_r[k - 1]);
                    }
                }
                assert forall|j: int|
                    0 <= j < i + 1 && is_selected(us, emergency_msat, feerate, j) implies r@.contains(
                    j as usize,
                ) by {
                    if j == i {
                        assert(r@[p as int] == i);
                    } else {
                        let k = choose|k: int| 0 <= k < old_r.len() && old_r[k] == j as usize;
                        if k < p {
                            assert(r@[k] == j as usize);
                        } else {
                            assert(r@[k + 1] == j as usize);
                        }
                    }
                }
                assert forall|a: int, b: int| 0 <= a < b < r.len() implies precedes(
                    us,
                    #[trigger] r@[a] as int,
                    #[trigger] r@[b] as int,
                ) by {
                    if b < p {
                    } else if b == p {
                        assert(us[old_r[a] as int].amount_msat <= amount);
                    } else if a < p {
                        assert(r@[b] == old_r[b - 1]);
                    } else if a == p {
                        assert(r@[b] == old_r[b - 1]);
                        assert(p < old_r.len());
                        assert(us[old_r[p as int] as int].amount_msat > amount);
                        if b - 1 > p {
                            assert(precedes(us, old_r[p as int] as int, old_r[b - 1] as int));
                        }
                    } else {
                        assert(r@[a] == old_r[a - 1]);
                        assert(r@[b] == old_r[b - 1]);
                    }
                }
            }
        } else {
            proof {
                assert(!is_selected(us, emergency_msat, feerate, i as int));
            }
        }
        i += 1;
    }
    proof {
        lemma_selection_deterministic(us, emergency_msat, feerate, r@);
    }
    r
}

pub open spec fn is_hex_digit(c: char) -> bool {
    ('0' <= c && c <= '9') || ('a' <= c && c <= 'f') || ('A' <= c && c <= 'F')
}

/// Text that names a transaction: 64 hexadecimal digits, in either case.
pub open spec fn is_txid_hex(s: Seq<char>) -> bool {
    s.len() == 64 && forall|i: int| 0 <= i < s.len() ==> is_hex_digit(#[trigger] s[i])
}

/// Relies on bitcoin_hashes' `FromStr` for `sha256::Hash` (hex-conservative's
/// `FromHex` for `[u8; 32]`): it succeeds exactly on 64 hexadecimal digits.
#[verifier::external_body]
fn parse_txid(s: &String) -> (r: Option<Sha256>)
    ensures
        r is Some <==> is_txid_hex(s@),
{
    Sha256::from_str(s).ok()
}

/// Position `k` of `sel` holds the first selected coin whose transaction id
/// does not parse.
pub open spec fn first_bad_txid(us: Seq<Utxo>, sel: Seq<usize>, k: int) -> bool {
    &&& 0 <= k < sel.len()
    &&& !is_txid_hex(us[sel[k] as int].txid@)
    &&& forall|m: int| 0 <= m < k ==> is_txid_hex(#[trigger] us[sel[m] as int].txid@)
}

/// Every selected coin has a transaction id that parses.
pub open spec fn all_txids_parse(us: Seq<Utxo>, sel: Seq<usize>) -> bool {
    forall|k: int| 0 <= k < sel.len() ==> is_txid_hex(#[trigger] us[sel[k] as int].txid@)
}

/// The outpoints (transaction id, output number) that one consolidation
/// spends, in the order of `select_utxos`. It fails on the first selected coin
/// whose transaction id does not parse, and then when fewer than
/// `min_utxos_count` coins were selected.
pub fn consolidation_outpoints(
    utxos: &Vec<Utxo>,
    emergency_msat: u64,
    feerate: u32,
    min_utxos_count: usize,
) -> (r: Result<Vec<(Sha256, u32)>, SelectError>)
    ensures
        ({
            let sel = selection(utxos@, emergency_msat, feerate);
            match r {
                Ok(v) => {
                    &&& all_txids_parse(utxos@, sel)
                    &&& sel.len() >= min_utxos_count
                    &&& v.len() == sel.len()
                    &&& forall|k: int|
                        0 <= k < v.len() ==> (#[trigger] v@[k]).1 == utxos@[sel[k] as int].output
                },
                Err(SelectError::InvalidTxid { index }) => exists|k: int|
                    first_bad_txid(utxos@, sel, k) && index == sel[k],
                Err(SelectError::InsufficientUtxos { current, wanted }) => {
                    &&& all_txids_parse(utxos@, sel)
                    &&& current == sel.len()
                    &&& wanted == min_utxos_count
                    &&& current < wanted
                },
            }
        }),
{
    let sel = select_utxos(utxos, emergency_msat, feerate);
    let mut out: Vec<(Sha256, u32)> = Vec::new();
    let mut k: usize = 0;
    while k < sel.len()
        invariant
            k <= sel.len(),
            sel@ == selection(utxos@, emergency_msat, feerate),
            is_selection(utxos@, emergency_msat, feerate, sel@),
            out.len() == k,
            forall|m: int| 0 <= m < k ==> is_txid_hex(#[trigger] utxos@[sel@[m] as int].txid@),
            forall|m: int| 0 <= m < k ==> (#[trigger] out@[m]).1 == utxos@[sel@[m] as int].output,
        decreases sel.len() - k,
    {
        let idx = sel[k];
        assert(is_selected(utxos@, emergency_msat, feerate, sel@[k as int] as int));
        match parse_txid(&utxos[idx].txid) {
            Some(h) => {
                out.push((h, utxos[idx].output));
            },
            None => {
                assert(first_bad_txid(utxos@, sel@, k as int));
                return Err(SelectError::InvalidTxid { index: idx });
            },
        }
        k += 1;
    }
    if out.len() < min_utxos_count {
        return Err(SelectError::InsufficientUtxos { current: out.len(), wanted: min_utxos_count });
    }
    Ok(out)
}

/// Among the first `n` coins, one that reaches the floor precedes all others
/// that do, as soon as any does.
proof fn lemma_first_reaching(us: Seq<Utxo>, floor: u64, n: int)
    requires
        0 <= n <= us.len(),
        exists|j: int| 0 <= j < n && reaches_floor(us, floor, j),
    ensures
        exists|b: int|
            0 <= b < n && reaches_floor(us, floor, b) && forall|j: int|
                0 <= j < n && #[trigger] reaches_floor(us, floor, j) && j != b ==> precedes(us, b, j),
    decreases n,
{
    let last = n - 1;
    if exists|j: int| 0 <= j < last && reaches_floor(us, floor, j) {
        lemma_first_reaching(us, floor, last);
        let b = choose|b: int|
            0 <= b < last && reaches_floor(us, floor, b) && forall|j: int|
                0 <= j < last && #[trigger] reaches_floor(us, floor, j) && j != b ==> precedes(us, b, j);
        if reaches_floor(us, floor, last) && us[last].amount_msat < us[b].amount_msat {
            assert forall|j: int|
                0 <= j < n && #[trigger] reaches_floor(us, floor, j) && j != last implies precedes(
                us,
                last,
                j,
            ) by {
                if j != b {
                    assert(precedes(us, b, j));
                }
            }
        } else {
            assert forall|j: int|
                0 <= j < n && #[trigger] reaches_floor(us, floor, j) && j != b implies precedes(us, b, j) by {}
        }
    } else {
        assert forall|j: int|
            0 <= j < n && #[trigger] reaches_floor(us, floor, j) && j != last implies precedes(us, last, j) by {}
    }
}

/// The emergency reserve: where some spendable coin is worth at least the
/// floor, exactly one coin is held back, the smallest such (the first in list
/// order among equal amounts), and every other coin that reaches the floor is
/// selected exactly when it covers its input cost. Where no coin reaches the
/// floor, nothing is held back.
pub proof fn lemma_one_reserve(us: Seq<Utxo>, floor: u64, feerate: u32)
    ensures
        (exists|i: int| reaches_floor(us, floor, i)) ==> exists|b: int|
            {
                &&& is_reserve(us, floor, b)
                &&& !is_selected(us, floor, feerate, b)
                &&& forall|c: int| #[trigger] is_reserve(us, floor, c) ==> c == b
                &&& forall|j: int|
                    #[trigger] reaches_floor(us, floor, j) && j != b ==> (is_selected(us, floor, feerate, j)
                        <==> covers_input_cost(us[j].amount_msat, feerate))
            },
        (forall|i: int| !reaches_floor(us, floor, i)) ==> forall|i: int|
            #[trigger] is_selected(us, floor, feerate, i) <==> (0 <= i < us.len() && spendable(us[i])
                && covers_input_cost(us[i].amount_msat, feerate)),
{
    if exists|i: int| reaches_floor(us, floor, i) {
        let i = choose|i: int| reaches_floor(us, floor, i);
        lemma_first_reaching(us, floor, us.len() as int);
        let b = choose|b: int|
            0 <= b < us.len() && reaches_floor(us, floor, b) && forall|j: int|
                0 <= j < us.len() && #[trigger] reaches_floor(us, floor, j) && j != b ==> precedes(us, b, j);
        assert(is_reserve(us, floor, b));
        assert forall|c: int| #[trigger] is_reserve(us, floor, c) implies c == b by {
            lemma_reserve_unique(us, floor, b, c);
        }
        assert forall|j: int|
            #[trigger] reaches_floor(us, floor, j) && j != b implies (is_selected(us, floor, feerate, j)
                <==> covers_input_cost(us[j].amount_msat, feerate)) by {
            if is_reserve(us, floor, j) {
                lemma_reserve_unique(us, floor, b, j);
            }
        }
    }
}

} // verus!

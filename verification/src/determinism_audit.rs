//! Utilities that keep ledger execution deterministic: an audit of
//! known non-determinism sources, order-fixing sorts, an allow-list of
//! deterministic operations, and overflow-checked arithmetic.

use vstd::prelude::*;
use vstd::seq_lib::group_to_multiset_ensures;
use vstd::string::StringExecFns;
use vstd::utf8::encode_utf8;
use crate::encryption::{hex_lower_of, hex_string, sha256_digest, sha256_of};
use crate::error::ContractError;
use crate::numeral::{dec_str_of, u64_to_string};
use crate::text::{chars_eq, to_chars};

verus! {

/// How serious a determinism finding is.
#[derive(Clone, Debug)]
pub enum IssueSeverity {
    Critical,
    Warning,
    Info,
}

/// One finding of the determinism audit.
#[derive(Clone, Debug)]
pub struct DeterminismIssue {
    pub severity: IssueSeverity,
    pub message: String,
    pub location: String,
    pub recommendation: String,
}

/// Builds an informational finding from its three texts.
fn info_issue(message: &str, location: &str, recommendation: &str) -> (r: DeterminismIssue)
    ensures
        r.severity is Info,
        r.message@ == message@,
        r.location@ == location@,
        r.recommendation@ == recommendation@,
{
    DeterminismIssue {
        severity: IssueSeverity::Info,
        message: String::from_str(message),
        location: String::from_str(location),
        recommendation: String::from_str(recommendation),
    }
}

/// No wall-clock reads: timestamps come from the block alone.
fn check_system_time_usage() -> (r: DeterminismIssue)
    ensures
        r.severity is Info,
        r.message@ == "No system time usage detected"@,
{
    info_issue(
        "No system time usage detected",
        "contract code",
        "Continue using env.block.time for timestamps",
    )
}

/// No random number generation inside the state transition.
fn check_random_usage() -> (r: DeterminismIssue)
    ensures
        r.severity is Info,
        r.message@ == "No random number generation detected"@,
{
    info_issue(
        "No random number generation detected",
        "contract code",
        "Use deterministic algorithms or block-based entropy if needed",
    )
}

/// No floating-point arithmetic; integers only.
fn check_floating_point() -> (r: DeterminismIssue)
    ensures
        r.severity is Info,
        r.message@ == "No floating point arithmetic detected"@,
{
    info_issue(
        "No floating point arithmetic detected",
        "contract code",
        "Continue using integer arithmetic with proper scaling",
    )
}

/// Iteration runs over ordered containers, never hash order.
fn check_iteration_patterns() -> (r: DeterminismIssue)
    ensures
        r.severity is Info,
        r.message@ == "Using BTreeMap for deterministic iteration"@,
{
    info_issue(
        "Using BTreeMap for deterministic iteration",
        "data structures",
        "Continue using BTreeMap instead of HashMap for iteration",
    )
}

/// No calls out of the sandboxed state transition.
fn check_external_calls() -> (r: DeterminismIssue)
    ensures
        r.severity is Info,
        r.message@ == "No external system calls detected"@,
{
    info_issue(
        "No external system calls detected",
        "contract code",
        "Avoid any external system calls or file system operations",
    )
}

/// Audits the contract for non-deterministic patterns.  The five checks
/// each report one finding; none of them is critical.
pub fn audit_determinism() -> (r: Vec<DeterminismIssue>)
    ensures
        r@.len() == 5,
        forall|i: int| 0 <= i < r@.len() ==> (#[trigger] r@[i].severity) is Info,
        r@[0].message@ == "No system time usage detected"@,
        r@[1].message@ == "No random number generation detected"@,
        r@[2].message@ == "No floating point arithmetic detected"@,
        r@[3].message@ == "Using BTreeMap for deterministic iteration"@,
        r@[4].message@ == "No external system calls detected"@,
{
    let mut issues: Vec<DeterminismIssue> = Vec::new();
    issues.push(check_system_time_usage());
    issues.push(check_random_usage());
    issues.push(check_floating_point());
    issues.push(check_iteration_patterns());
    issues.push(check_external_calls());
    issues
}

/// Lexicographic order on character sequences, by code point.
pub open spec fn seq_le(a: Seq<char>, b: Seq<char>) -> bool
    decreases a.len(),
{
    if a.len() == 0 {
        true
    } else if b.len() == 0 {
        false
    } else if a[0] == b[0] {
        seq_le(a.drop_first(), b.drop_first())
    } else {
        a[0] < b[0]
    }
}

/// Any two character sequences compare one way or the other.
pub proof fn lemma_seq_le_total(a: Seq<char>, b: Seq<char>)
    ensures
        seq_le(a, b) || seq_le(b, a),
    decreases a.len(),
{
    if a.len() > 0 && b.len() > 0 && a[0] == b[0] {
        lemma_seq_le_total(a.drop_first(), b.drop_first());
    }
}

/// Lexicographic order is transitive.
pub proof fn lemma_seq_le_trans(a: Seq<char>, b: Seq<char>, c: Seq<char>)
    requires
        seq_le(a, b),
        seq_le(b, c),
    ensures
        seq_le(a, c),
    decreases a.len(),
{
    if a.len() > 0 && b.len() > 0 && c.len() > 0 && a[0] == b[0] && b[0] == c[0] {
        lemma_seq_le_trans(a.drop_first(), b.drop_first(), c.drop_first());
    }
}

/// Compares two character vectors lexicographically.
fn chars_le(a: &Vec<char>, b: &Vec<char>) -> (r: bool)
    ensures
        r == seq_le(a@, b@),
{
    let n = a.len();
    let m = b.len();
    proof {
        assert(a@.subrange(0, n as int) =~= a@);
        assert(b@.subrange(0, m as int) =~= b@);
    }
    let mut i: usize = 0;
    while i < n && i < m && a[i] == b[i]
        invariant
            i <= n,
            i <= m,
            n == a@.len(),
            m == b@.len(),
            seq_le(a@, b@) == seq_le(a@.subrange(i as int, n as int), b@.subrange(i as int, m as int)),
        decreases n - i,
    {
        proof {
            let sa = a@.subrange(i as int, n as int);
            let sb = b@.subrange(i as int, m as int);
            assert(sa.drop_first() =~= a@.subrange(i + 1, n as int));
            assert(sb.drop_first() =~= b@.subrange(i + 1, m as int));
            assert(sa[0] == a@[i as int] && sb[0] == b@[i as int]);
        }
        i = i + 1;
    }
    proof {
        let sa = a@.subrange(i as int, n as int);
        let sb = b@.subrange(i as int, m as int);
        if i < n && i < m {
            assert(sa[0] == a@[i as int] && sb[0] == b@[i as int]);
        }
    }
    if i >= n {
        true
    } else if i >= m {
        false
    } else {
        a[i] < b[i]
    }
}

/// The prefix of length `n` is sorted lexicographically.
pub open spec fn sorted_prefix(s: Seq<String>, n: int) -> bool {
    forall|k1: int, k2: int| 0 <= k1 < k2 < n ==> seq_le(#[trigger] s[k1]@, #[trigger] s[k2]@)
}

/// The position before the first of the leading `i` strings that does
/// not compare at or below `xc`.
fn lex_insert_position(addresses: &Vec<String>, i: usize, xc: &Vec<char>) -> (j: usize)
    requires
        i <= addresses@.len(),
    ensures
        j <= i,
        forall|k: int| 0 <= k < j ==> seq_le(#[trigger] addresses@[k]@, xc@),
        j < i ==> !seq_le(addresses@[j as int]@, xc@),
{
    let mut j: usize = 0;
    while j < i
        invariant_except_break
            0 <= j <= i,
            i <= addresses@.len(),
            forall|k: int| 0 <= k < j ==> seq_le(#[trigger] addresses@[k]@, xc@),
        ensures
            0 <= j <= i,
            forall|k: int| 0 <= k < j ==> seq_le(#[trigger] addresses@[k]@, xc@),
            j < i ==> !seq_le(addresses@[j as int]@, xc@),
        decreases i - j,
    {
        let cand = to_chars(addresses[j].as_str());
        if !chars_le(&cand, xc) {
            break;
        }
        j = j + 1;
    }
    j
}

/// Sorts addresses lexicographically by code point, so that every node
/// iterates them in the same order: the result is sorted and holds
/// exactly the strings that were given.
#[verifier::loop_isolation(false)]
pub fn sort_addresses_deterministic(addresses: &mut Vec<String>)
    ensures
        final (addresses)@.len() == old(addresses)@.len(),
        final (addresses)@.to_multiset() == old(addresses)@.to_multiset(),
        sorted_prefix(final (addresses)@, final (addresses)@.len() as int),
{
    broadcast use group_to_multiset_ensures;

    let n = addresses.len();
    let mut i: usize = 1;
    while i < n
        invariant
            1 <= i <= n || n == 0,
            addresses@.len() == n,
            addresses@.to_multiset() == old(addresses)@.to_multiset(),
            sorted_prefix(addresses@, i as int),
        decreases n - i,
    {
        let ghost before = addresses@;
        let x = addresses.remove(i);
        let ghost removed = addresses@;
        proof {
            assert(before.remove(i as int).to_multiset() == before.to_multiset().remove(
                before[i as int],
            ));
            assert(before.contains(before[i as int]));
        }
        let xc = to_chars(x.as_str());
        let j = lex_insert_position(addresses, i, &xc);
        proof {
            if j < i {
                lemma_seq_le_total(removed[j as int]@, x@);
                assert(seq_le(x@, removed[j as int]@));
            }
        }
        addresses.insert(j, x);
        proof {
            assert(addresses@ == removed.insert(j as int, x));
            assert(removed.insert(j as int, x).to_multiset() == removed.to_multiset().insert(x));
            assert(addresses@.to_multiset() =~= before.to_multiset());
            assert forall|k1: int, k2: int| 0 <= k1 < k2 < i + 1 implies seq_le(
                #[trigger] addresses@[k1]@,
                #[trigger] addresses@[k2]@,
            ) by {
                if k2 < j {
                    assert(addresses@[k1] == removed[k1] && addresses@[k2] == removed[k2]);
                } else if k2 == j {
                    assert(addresses@[k1] == removed[k1] && addresses@[k2] == x);
                } else if k1 < j {
                    assert(addresses@[k1] == removed[k1] && addresses@[k2] == removed[k2 - 1]);
                } else if k1 == j {
                    assert(addresses@[k1] == x && addresses@[k2] == removed[k2 - 1]);
                    assert(seq_le(x@, removed[j as int]@));
                    if k2 - 1 > j {
                        assert(seq_le(removed[j as int]@, removed[k2 - 1]@));
                        lemma_seq_le_trans(x@, removed[j as int]@, removed[k2 - 1]@);
                    }
                } else {
                    assert(addresses@[k1] == removed[k1 - 1] && addresses@[k2] == removed[k2 - 1]);
                }
            }
        }
        i = i + 1;
    }
}

/// The prefix of length `n` is sorted by the numeric key.
pub open spec fn sorted_keys_prefix<T>(s: Seq<(u64, T)>, n: int) -> bool {
    forall|k1: int, k2: int| 0 <= k1 < k2 < n ==> (#[trigger] s[k1]).0 <= (#[trigger] s[k2]).0
}

/// Carrying a given key.
pub open spec fn key_pred<T>(key: u64) -> spec_fn((u64, T)) -> bool {
    |p: (u64, T)| p.0 == key
}

/// The items carrying a given key, in their order of appearance.
pub open spec fn with_key<T>(s: Seq<(u64, T)>, key: u64) -> Seq<(u64, T)> {
    s.filter(key_pred(key))
}

/// Filtering a singleton keeps or drops its one element.
proof fn lemma_filter_singleton<A>(x: A, pred: spec_fn(A) -> bool)
    ensures
        seq![x].filter(pred) == if pred(x) {
            seq![x]
        } else {
            Seq::<A>::empty()
        },
{
    reveal(Seq::filter);
    assert(seq![x].drop_last() =~= Seq::<A>::empty());
    assert(Seq::<A>::empty().filter(pred) == Seq::<A>::empty());
    if pred(x) {
        assert(seq![x].filter(pred) =~= seq![x]);
    } else {
        assert(seq![x].filter(pred) =~= Seq::<A>::empty());
    }
}

/// Filtering a sequence none of whose elements satisfies the predicate
/// yields the empty sequence.
proof fn lemma_filter_none<A>(s: Seq<A>, pred: spec_fn(A) -> bool)
    requires
        forall|i: int| 0 <= i < s.len() ==> !pred(#[trigger] s[i]),
    ensures
        s.filter(pred) == Seq::<A>::empty(),
    decreases s.len(),
{
    reveal(Seq::filter);
    if s.len() > 0 {
        lemma_filter_none(s.drop_last(), pred);
    }
    assert(s.filter(pred) =~= Seq::<A>::empty());
}

/// Moving the item at `i` back to position `j` never reorders items of
/// equal key, provided everything strictly between the two positions
/// carries a greater key and everything before `j` a key at most the
/// moved item's.
proof fn lemma_move_back_stable<T>(before: Seq<(u64, T)>, i: int, j: int)
    requires
        0 <= j <= i < before.len(),
        forall|k: int| 0 <= k < j ==> (#[trigger] before[k]).0 <= before[i].0,
        forall|k: int| j <= k < i ==> (#[trigger] before[k]).0 > before[i].0,
    ensures
        forall|key: u64|
            #[trigger] with_key(before.remove(i).insert(j, before[i]), key) == with_key(
                before,
                key,
            ),
{
    let x = before[i];
    let n = before.len() as int;
    let a1 = before.subrange(0, j);
    let a2 = before.subrange(j, i);
    let b = before.subrange(i + 1, n);
    let new = before.remove(i).insert(j, x);
    assert(before =~= a1 + (a2 + (seq![x] + b)));
    assert(new =~= a1 + (seq![x] + (a2 + b)));
    assert forall|key: u64|
        #[trigger] with_key(new, key) == with_key(before, key) by {
        let pred = key_pred::<T>(key);
        Seq::filter_distributes_over_add(a1, a2 + (seq![x] + b), pred);
        Seq::filter_distributes_over_add(a2, seq![x] + b, pred);
        Seq::filter_distributes_over_add(seq![x], b, pred);
        Seq::filter_distributes_over_add(a1, seq![x] + (a2 + b), pred);
        Seq::filter_distributes_over_add(seq![x], a2 + b, pred);
        Seq::filter_distributes_over_add(a2, b, pred);
        lemma_filter_singleton(x, pred);
        if key == x.0 {
            assert(forall|k: int| 0 <= k < a2.len() ==> !pred(#[trigger] a2[k]));
            lemma_filter_none(a2, pred);
            assert(with_key(new, key) =~= with_key(before, key));
        } else {
            assert(!pred(x));
            assert(with_key(new, key) =~= with_key(before, key));
        }
    }
}

/// Sorts keyed items by their numeric key, for a reproducible
/// governance-proposal order: the result is sorted by key and holds
/// exactly the items that were given.
#[verifier::loop_isolation(false)]
pub fn sort_proposals_deterministic<T>(items: &mut Vec<(u64, T)>)
    ensures
        final (items)@.len() == old(items)@.len(),
        final (items)@.to_multiset() == old(items)@.to_multiset(),
        sorted_keys_prefix(final (items)@, final (items)@.len() as int),
        forall|key: u64|
            #[trigger] with_key(final (items)@, key) == with_key(old(items)@, key),
{
    broadcast use group_to_multiset_ensures;

    let n = items.len();
    let mut i: usize = 1;
    while i < n
        invariant
            1 <= i <= n || n == 0,
            items@.len() == n,
            items@.to_multiset() == old(items)@.to_multiset(),
            sorted_keys_prefix(items@, i as int),
            forall|key: u64| #[trigger] with_key(items@, key) == with_key(old(items)@, key),
        decreases n - i,
    {
        let ghost before = items@;
        let x = items.remove(i);
        let ghost removed = items@;
        proof {
            assert(before.remove(i as int).to_multiset() == before.to_multiset().remove(
                before[i as int],
            ));
            assert(before.contains(before[i as int]));
        }
        let key = x.0;
        let mut j: usize = 0;
        while j < i && items[j].0 <= key
            invariant
                0 <= j <= i,
                items@ == removed,
                key == x.0,
                forall|k: int| 0 <= k < j ==> (#[trigger] removed[k]).0 <= x.0,
            decreases i - j,
        {
            j = j + 1;
        }
        items.insert(j, x);
        proof {
            assert(items@ == removed.insert(j as int, x));
            assert(removed.insert(j as int, x).to_multiset() == removed.to_multiset().insert(x));
            assert(items@.to_multiset() =~= before.to_multiset());
            assert(x == before[i as int]);
            assert(removed =~= before.remove(i as int));
            assert forall|k: int| 0 <= k < j implies (#[trigger] before[k]).0 <= x.0 by {
                assert(before[k] == removed[k]);
            }
            assert forall|k: int| j <= k < i implies (#[trigger] before[k]).0 > x.0 by {
                assert(removed[j as int].0 > x.0);
                assert(before[j as int] == removed[j as int]);
                if k > j {
                    assert(before[j as int].0 <= before[k].0);
                }
            }
            lemma_move_back_stable(before, i as int, j as int);
            assert forall|key: u64|
                #[trigger] with_key(items@, key) == with_key(old(items)@, key) by {
                assert(with_key(before.remove(i as int).insert(j as int, x), key) == with_key(
                    before,
                    key,
                ));
                assert(with_key(before, key) == with_key(old(items)@, key));
            }
            assert forall|k1: int, k2: int| 0 <= k1 < k2 < i + 1 implies (
            #[trigger] items@[k1]).0 <= (#[trigger] items@[k2]).0 by {
                if k2 < j {
                    assert(items@[k1] == removed[k1] && items@[k2] == removed[k2]);
                } else if k2 == j {
                    assert(items@[k1] == removed[k1] && items@[k2] == x);
                } else if k1 < j {
                    assert(items@[k1] == removed[k1] && items@[k2] == removed[k2 - 1]);
                } else if k1 == j {
                    assert(items@[k1] == x && items@[k2] == removed[k2 - 1]);
                } else {
                    assert(items@[k1] == removed[k1 - 1] && items@[k2] == removed[k2 - 1]);
                }
            }
        }
        i = i + 1;
    }
}

/// The operations a deterministic state transition may perform.
pub open spec fn allowed_operation(s: Seq<char>) -> bool {
    ||| s == "block_time"@
    ||| s == "block_height"@
    ||| s == "chain_id"@
    ||| s == "sender_address"@
    ||| s == "contract_address"@
    ||| s == "integer_math"@
    ||| s == "string_operations"@
    ||| s == "storage_operations"@
}

/// Accepts exactly the operations on the deterministic allow-list; any
/// other name is rejected with the offending operation attached.
pub fn validate_deterministic_operation(operation: &str) -> (r: Result<(), ContractError>)
    ensures
        r is Ok <==> allowed_operation(operation@),
        r matches Err(e) ==> (e matches ContractError::NonDeterministicOperation { operation: op }
            && op@ == operation@),
{
    let oc = to_chars(operation);
    let l1 = to_chars("block_time");
    let l2 = to_chars("block_height");
    let l3 = to_chars("chain_id");
    let l4 = to_chars("sender_address");
    let l5 = to_chars("contract_address");
    let l6 = to_chars("integer_math");
    let l7 = to_chars("string_operations");
    let l8 = to_chars("storage_operations");
    let ok = chars_eq(&oc, &l1) || chars_eq(&oc, &l2) || chars_eq(&oc, &l3) || chars_eq(&oc, &l4)
        || chars_eq(&oc, &l5) || chars_eq(&oc, &l6) || chars_eq(&oc, &l7) || chars_eq(&oc, &l8);
    if ok {
        Ok(())
    } else {
        Err(ContractError::NonDeterministicOperation { operation: String::from_str(operation) })
    }
}

/// Joins the decimal forms of two operands around a separator, for
/// error reports.
fn operand_string(a: u64, sep: &str, b: u64) -> (r: String)
    ensures
        r@ == dec_str_of(a as int) + sep@ + dec_str_of(b as int),
{
    let mut s = u64_to_string(a);
    s.append(sep);
    let bs = u64_to_string(b);
    s.append(bs.as_str());
    s
}

/// Adds two counters, reporting overflow instead of wrapping.
pub fn safe_arithmetic_add(a: u64, b: u64) -> (r: Result<u64, ContractError>)
    ensures
        a + b <= u64::MAX ==> r == Ok::<u64, ContractError>((a + b) as u64),
        a + b > u64::MAX ==> (r matches Err(e) && e matches ContractError::IntegerOverflow {
            operation,
            operands,
        } && operation@ == "addition"@ && operands@ == dec_str_of(a as int) + " + "@ + dec_str_of(
            b as int,
        )),
{
    match a.checked_add(b) {
        Some(v) => Ok(v),
        None => Err(
            ContractError::IntegerOverflow {
                operation: String::from_str("addition"),
                operands: operand_string(a, " + ", b),
            },
        ),
    }
}

/// Subtracts two counters, reporting underflow instead of wrapping.
pub fn safe_arithmetic_sub(a: u64, b: u64) -> (r: Result<u64, ContractError>)
    ensures
        a >= b ==> r == Ok::<u64, ContractError>((a - b) as u64),
        a < b ==> (r matches Err(e) && e matches ContractError::IntegerUnderflow {
            operation,
            operands,
        } && operation@ == "subtraction"@ && operands@ == dec_str_of(a as int) + " - "@
            + dec_str_of(b as int)),
{
    match a.checked_sub(b) {
        Some(v) => Ok(v),
        None => Err(
            ContractError::IntegerUnderflow {
                operation: String::from_str("subtraction"),
                operands: operand_string(a, " - ", b),
            },
        ),
    }
}

/// Multiplies two counters, reporting overflow instead of wrapping.
pub fn safe_arithmetic_mul(a: u64, b: u64) -> (r: Result<u64, ContractError>)
    ensures
        a * b <= u64::MAX ==> r == Ok::<u64, ContractError>((a * b) as u64),
        a * b > u64::MAX ==> (r matches Err(e) && e matches ContractError::IntegerOverflow {
            operation,
            operands,
        } && operation@ == "multiplication"@ && operands@ == dec_str_of(a as int) + " * "@
            + dec_str_of(b as int)),
{
    match a.checked_mul(b) {
        Some(v) => Ok(v),
        None => Err(
            ContractError::IntegerOverflow {
                operation: String::from_str("multiplication"),
                operands: operand_string(a, " * ", b),
            },
        ),
    }
}

/// Divides two counters, rejecting a zero divisor.
pub fn safe_arithmetic_div(a: u64, b: u64) -> (r: Result<u64, ContractError>)
    ensures
        b == 0 ==> r == Err::<u64, ContractError>(ContractError::DivisionByZero {}),
        b != 0 ==> r == Ok::<u64, ContractError>((a as int / b as int) as u64),
{
    if b == 0 {
        return Err(ContractError::DivisionByZero {});
    }
    Ok(a / b)
}

/// The big-endian bytes of a 64-bit counter.
pub open spec fn be_bytes_of(x: u64) -> Seq<u8> {
    seq![
        (x >> 56) as u8,
        (x >> 48) as u8,
        (x >> 40) as u8,
        (x >> 32) as u8,
        (x >> 24) as u8,
        (x >> 16) as u8,
        (x >> 8) as u8,
        x as u8,
    ]
}

/// Appends the big-endian bytes of a counter to a buffer.
fn push_be_bytes(out: &mut Vec<u8>, x: u64)
    ensures
        final (out)@ == old(out)@ + be_bytes_of(x),
{
    out.push((x >> 56) as u8);
    out.push((x >> 48) as u8);
    out.push((x >> 40) as u8);
    out.push((x >> 32) as u8);
    out.push((x >> 24) as u8);
    out.push((x >> 16) as u8);
    out.push((x >> 8) as u8);
    out.push(x as u8);
    proof {
        assert(out@ =~= old(out)@ + be_bytes_of(x));
    }
}

/// Appends the bytes of a text to a buffer.
fn push_str_bytes(out: &mut Vec<u8>, s: &str)
    ensures
        final (out)@ == old(out)@ + encode_utf8(s@),
{
    let b = s.as_bytes();
    let mut i: usize = 0;
    while i < b.len()
        invariant
            i <= b@.len(),
            b@ == encode_utf8(s@),
            out@ == old(out)@ + b@.subrange(0, i as int),
        decreases b@.len() - i,
    {
        out.push(b[i]);
        proof {
            assert(out@ =~= old(out)@ + b@.subrange(0, i + 1));
        }
        i = i + 1;
    }
    proof {
        assert(b@.subrange(0, b@.len() as int) =~= b@);
    }
}

/// A digest over blockchain data available to every node: chain id,
/// block height and time, sender and payload, hashed in that order so
/// the result is reproducible across the network.
pub fn deterministic_hash_from_parts(
    chain_id: &str,
    height: u64,
    time_seconds: u64,
    sender: &str,
    data: &str,
) -> (r: String)
    ensures
        r@ == hex_lower_of(
            sha256_of(
                encode_utf8(chain_id@) + be_bytes_of(height) + be_bytes_of(time_seconds)
                    + encode_utf8(sender@) + encode_utf8(data@),
            ),
        ),
{
    let mut buf: Vec<u8> = Vec::new();
    push_str_bytes(&mut buf, chain_id);
    push_be_bytes(&mut buf, height);
    push_be_bytes(&mut buf, time_seconds);
    push_str_bytes(&mut buf, sender);
    push_str_bytes(&mut buf, data);
    proof {
        assert(buf@ =~= encode_utf8(chain_id@) + be_bytes_of(height) + be_bytes_of(time_seconds)
            + encode_utf8(sender@) + encode_utf8(data@));
    }
    let digest = sha256_digest(buf.as_slice());
    hex_string(&digest)
}

/// An identifier derived from block data alone: prefix, height, time
/// and sender joined by underscores.
pub fn deterministic_id_from_parts(prefix: &str, height: u64, time_seconds: u64, sender: &str) -> (r:
    String)
    ensures
        r@ == prefix@ + "_"@ + dec_str_of(height as int) + "_"@ + dec_str_of(time_seconds as int)
            + "_"@ + sender@,
{
    let mut s = String::from_str(prefix);
    s.append("_");
    let h = u64_to_string(height);
    s.append(h.as_str());
    s.append("_");
    let t = u64_to_string(time_seconds);
    s.append(t.as_str());
    s.append("_");
    s.append(sender);
    s
}

} // verus!

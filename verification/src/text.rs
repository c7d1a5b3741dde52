//! Decimal text of integers, and the names given to snapshots.
use vstd::prelude::*;
use vstd::string::*;
use crate::ids::LogId;

verus! {

/// The character of a decimal digit.
pub open spec fn digit_char(d: nat) -> char
    recommends
        d < 10,
{
    if d == 0 {
        '0'
    } else if d == 1 {
        '1'
    } else if d == 2 {
        '2'
    } else if d == 3 {
        '3'
    } else if d == 4 {
        '4'
    } else if d == 5 {
        '5'
    } else if d == 6 {
        '6'
    } else if d == 7 {
        '7'
    } else if d == 8 {
        '8'
    } else {
        '9'
    }
}

/// The decimal text of a natural number, most significant digit first, without leading zeros.
pub open spec fn decimal(n: nat) -> Seq<char>
    decreases n,
{
    if n < 10 {
        seq![digit_char(n)]
    } else {
        decimal(n / 10).push(digit_char(n % 10))
    }
}

proof fn lemma_decimal_len(n: nat)
    ensures
        decimal(n).len() >= 1,
        n >= 10 ==> decimal(n).len() >= 2,
    decreases n,
{
    if n >= 10 {
        lemma_decimal_len(n / 10);
    }
}

proof fn lemma_decimal_has_no_dash(n: nat)
    ensures
        forall|i: int| 0 <= i < decimal(n).len() ==> #[trigger] decimal(n)[i] != '-',
    decreases n,
{
    if n >= 10 {
        lemma_decimal_has_no_dash(n / 10);
        assert forall|i: int| 0 <= i < decimal(n).len() implies #[trigger] decimal(n)[i] != '-' by {
            if i < decimal(n).len() - 1 {
                assert(decimal(n)[i] == decimal(n / 10)[i]);
            }
        }
    }
}

/// Different numbers have different decimal texts.
pub proof fn lemma_decimal_injective(a: nat, b: nat)
    requires
        decimal(a) == decimal(b),
    ensures
        a == b,
    decreases a,
{
    lemma_decimal_len(a);
    lemma_decimal_len(b);
    if a >= 10 && b >= 10 {
        let da = decimal(a);
        let db = decimal(b);
        assert(da.last() == db.last());
        assert(digit_char(a % 10) == digit_char(b % 10));
        assert(a % 10 == b % 10);
        assert(da.drop_last() =~= decimal(a / 10));
        assert(db.drop_last() =~= decimal(b / 10));
        lemma_decimal_injective(a / 10, b / 10);
        assert(a == 10 * (a / 10) + a % 10);
        assert(b == 10 * (b / 10) + b % 10);
    } else if a < 10 && b < 10 {
        assert(decimal(a) == seq![digit_char(a)]);
        assert(decimal(b) == seq![digit_char(b)]);
        assert(seq![digit_char(a)][0] == digit_char(a));
        assert(seq![digit_char(b)][0] == digit_char(b));
        assert(digit_char(a) == digit_char(b));
    } else if a < 10 {
        assert(decimal(a).len() == 1);
    } else {
        assert(decimal(b).len() == 1);
    }
}

proof fn lemma_text_after_last_dash(p1: Seq<char>, d1: Seq<char>, p2: Seq<char>, d2: Seq<char>)
    requires
        p1 + seq!['-'] + d1 == p2 + seq!['-'] + d2,
        forall|i: int| 0 <= i < d1.len() ==> #[trigger] d1[i] != '-',
        forall|i: int| 0 <= i < d2.len() ==> #[trigger] d2[i] != '-',
    ensures
        d1 == d2,
{
    let t = p1 + seq!['-'] + d1;
    let u = p2 + seq!['-'] + d2;
    let n = t.len();
    if d1.len() < d2.len() {
        let q = n - d1.len() - 1;
        assert(t[q] == '-');
        assert(u[q] == d2[q - p2.len() - 1]);
    } else if d2.len() < d1.len() {
        let q = n - d2.len() - 1;
        assert(u[q] == '-');
        assert(t[q] == d1[q - p1.len() - 1]);
    } else {
        assert(d1 =~= t.subrange(n - d1.len(), n as int));
        assert(d2 =~= u.subrange(n - d2.len(), n as int));
    }
}

fn digit_str(d: u64) -> (s: &'static str)
    requires
        d < 10,
    ensures
        s@ == seq![digit_char(d as nat)],
{
    proof {
        reveal_strlit("0");
        reveal_strlit("1");
        reveal_strlit("2");
        reveal_strlit("3");
        reveal_strlit("4");
        reveal_strlit("5");
        reveal_strlit("6");
        reveal_strlit("7");
        reveal_strlit("8");
        reveal_strlit("9");
    }
    match d {
        0 => "0",
        1 => "1",
        2 => "2",
        3 => "3",
        4 => "4",
        5 => "5",
        6 => "6",
        7 => "7",
        8 => "8",
        _ => "9",
    }
}

/// Appends the decimal text of `n` to `out`.
pub fn push_decimal(out: &mut String, n: u64)
    ensures
        final(out)@ == old(out)@ + decimal(n as nat),
    decreases n,
{
    if n >= 10 {
        push_decimal(out, n / 10);
    }
    out.append(digit_str(n % 10));
    proof {
        assert(old(out)@ + decimal(n as nat) =~= old(out)@ + (if n >= 10 {
            decimal((n / 10) as nat)
        } else {
            Seq::empty()
        }) + seq![digit_char((n % 10) as nat)]);
    }
}

/// The name of a snapshot: the log id it covers (term, node and index) and its sequence
/// number, joined by dashes; a snapshot that covers no entry is named by its number alone.
pub open spec fn snapshot_id_text(last: Option<LogId>, snapshot_index: u64) -> Seq<char> {
    match last {
        Some(l) => decimal(l.leader_id.term as nat) + seq!['-'] + decimal(l.leader_id.node_id as nat)
            + seq!['-'] + decimal(l.index as nat) + seq!['-'] + decimal(snapshot_index as nat),
        None => seq!['-', '-'] + decimal(snapshot_index as nat),
    }
}

/// The number that a decimal digit character stands for.
pub open spec fn digit_value(c: char) -> int {
    if c == '0' {
        0
    } else if c == '1' {
        1
    } else if c == '2' {
        2
    } else if c == '3' {
        3
    } else if c == '4' {
        4
    } else if c == '5' {
        5
    } else if c == '6' {
        6
    } else if c == '7' {
        7
    } else if c == '8' {
        8
    } else {
        9
    }
}

/// Whether `c` is one of the characters '0' to '9'.
pub open spec fn is_digit(c: char) -> bool {
    c == '0' || c == '1' || c == '2' || c == '3' || c == '4' || c == '5' || c == '6' || c == '7'
        || c == '8' || c == '9'
}

/// The number that a text of decimal digits stands for, most significant digit first.
pub open spec fn decimal_value(s: Seq<char>) -> int
    decreases s.len(),
{
    if s.len() == 0 {
        0
    } else {
        10 * decimal_value(s.drop_last()) + digit_value(s.last())
    }
}

proof fn lemma_digit_value(d: nat)
    requires
        d < 10,
    ensures
        digit_value(digit_char(d)) == d,
        is_digit(digit_char(d)),
{
}

/// The decimal text of a number is made of digits, reads back as that number, and starts with
/// a digit other than '0' unless the number is 0.
pub proof fn law_decimal_reads_back(n: nat)
    ensures
        decimal(n).len() >= 1,
        forall|i: int| 0 <= i < decimal(n).len() ==> is_digit(#[trigger] decimal(n)[i]),
        decimal_value(decimal(n)) == n,
        n > 0 ==> decimal(n)[0] != '0',
    decreases n,
{
    lemma_decimal_len(n);
    if n >= 10 {
        law_decimal_reads_back(n / 10);
        let d = decimal(n);
        assert(d.drop_last() =~= decimal(n / 10));
        assert forall|i: int| 0 <= i < d.len() implies is_digit(#[trigger] d[i]) by {
            if i < d.len() - 1 {
                assert(d[i] == decimal(n / 10)[i]);
            }
        }
        assert(d[0] == decimal(n / 10)[0]);
        assert(d.last() == digit_char(n % 10));
        lemma_digit_value(n % 10);
        assert(decimal_value(d) == 10 * decimal_value(decimal(n / 10)) + digit_value(d.last()));
        assert(n == 10 * (n / 10) + n % 10);
    } else {
        assert(decimal(n) == seq![digit_char(n)]);
        assert(seq![digit_char(n)][0] == digit_char(n));
        assert(seq![digit_char(n)].drop_last() =~= Seq::<char>::empty());
        lemma_digit_value(n);
        assert(decimal_value(Seq::<char>::empty()) == 0);
        assert(decimal_value(decimal(n)) == 10 * decimal_value(Seq::<char>::empty()) + digit_value(
            digit_char(n),
        ));
    }
}

/// The name of a snapshot that covers a log entry is the decimal term, node and index of that
/// entry's log id, then the snapshot's sequence number, joined by '-'; a snapshot that covers no
/// entry is named "--" and its sequence number.
pub proof fn law_snapshot_id_shape(l: LogId, n: u64)
    ensures
        snapshot_id_text(Some(l), n) == decimal(l.leader_id.term as nat) + seq!['-'] + decimal(
            l.leader_id.node_id as nat,
        ) + seq!['-'] + decimal(l.index as nat) + seq!['-'] + decimal(n as nat),
        snapshot_id_text(None, n) == seq!['-', '-'] + decimal(n as nat),
        decimal_value(
            snapshot_id_text(Some(l), n).subrange(
                snapshot_id_text(Some(l), n).len() - decimal(n as nat).len(),
                snapshot_id_text(Some(l), n).len() as int,
            ),
        ) == n,
        decimal_value(
            snapshot_id_text(Some(l), n).subrange(0, decimal(l.leader_id.term as nat).len() as int),
        ) == l.leader_id.term,
{
    let t = snapshot_id_text(Some(l), n);
    let d = decimal(n as nat);
    assert(t.subrange(t.len() - d.len(), t.len() as int) =~= d);
    assert(t.subrange(0, decimal(l.leader_id.term as nat).len() as int) =~= decimal(
        l.leader_id.term as nat,
    ));
    law_decimal_reads_back(n as nat);
    law_decimal_reads_back(l.leader_id.term as nat);
}

/// Snapshots with different sequence numbers have different names.
pub proof fn law_snapshot_ids_distinct(a: Option<LogId>, i: u64, b: Option<LogId>, j: u64)
    requires
        i != j,
    ensures
        snapshot_id_text(a, i) != snapshot_id_text(b, j),
{
    let prefix_a = match a {
        Some(l) => decimal(l.leader_id.term as nat) + seq!['-'] + decimal(l.leader_id.node_id as nat)
            + seq!['-'] + decimal(l.index as nat),
        None => seq!['-'],
    };
    let prefix_b = match b {
        Some(l) => decimal(l.leader_id.term as nat) + seq!['-'] + decimal(l.leader_id.node_id as nat)
            + seq!['-'] + decimal(l.index as nat),
        None => seq!['-'],
    };
    assert(snapshot_id_text(a, i) =~= prefix_a + seq!['-'] + decimal(i as nat));
    assert(snapshot_id_text(b, j) =~= prefix_b + seq!['-'] + decimal(j as nat));
    if snapshot_id_text(a, i) == snapshot_id_text(b, j) {
        lemma_decimal_has_no_dash(i as nat);
        lemma_decimal_has_no_dash(j as nat);
        lemma_text_after_last_dash(prefix_a, decimal(i as nat), prefix_b, decimal(j as nat));
        lemma_decimal_injective(i as nat, j as nat);
    }
}

/// Builds the name of a snapshot (see [`snapshot_id_text`]).
pub fn snapshot_id(last: Option<LogId>, snapshot_index: u64) -> (s: String)
    ensures
        s@ == snapshot_id_text(last, snapshot_index),
{
    let mut s = String::new();
    proof {
        reveal_strlit("-");
    }
    match last {
        Some(l) => {
            push_decimal(&mut s, l.leader_id.term);
            s.append("-");
            push_decimal(&mut s, l.leader_id.node_id);
            s.append("-");
            push_decimal(&mut s, l.index);
            s.append("-");
            push_decimal(&mut s, snapshot_index);
        },
        None => {
            s.append("-");
            s.append("-");
            push_decimal(&mut s, snapshot_index);
        },
    }
    proof {
        assert(s@ =~= snapshot_id_text(last, snapshot_index));
    }
    s
}

} // verus!

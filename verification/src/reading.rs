//! Reading text back: pieces between separators, numbers, and line by line.
//!
//! These are the readers against which the writers are held: what they find in
//! a text is what the text says.
use vstd::prelude::*;
use crate::bytes;
use crate::text;

verus! {

// ── pieces ────────────────────────────────────────────────────────────────────

/// The pieces of a text between separators.
#[verifier::opaque]
pub open spec fn split(s: Seq<char>, separator: char) -> Seq<Seq<char>>
    decreases s.len(),
{
    if s.len() == 0 {
        seq![Seq::empty()]
    } else {
        let before = split(s.drop_last(), separator);
        if s.last() == separator {
            before.push(Seq::empty())
        } else {
            before.drop_last().push(before.last().push(s.last()))
        }
    }
}

/// A text has at least one piece.
pub proof fn split_is_not_empty(s: Seq<char>, separator: char)
    ensures
        split(s, separator).len() > 0,
    decreases s.len(),
{
    reveal(split);
    if s.len() > 0 {
        split_is_not_empty(s.drop_last(), separator);
    }
}

/// Two texts with a separator between them have the pieces of both.
pub proof fn split_apart(a: Seq<char>, b: Seq<char>, separator: char)
    ensures
        split(a + seq![separator] + b, separator) == split(a, separator) + split(b, separator),
    decreases b.len(),
{
    reveal(split);
    let all = a + seq![separator] + b;
    split_is_not_empty(a, separator);
    split_is_not_empty(b, separator);
    if b.len() == 0 {
        assert(all.drop_last() =~= a);
        assert(split(a, separator).push(Seq::empty()) =~= split(a, separator) + split(
            b,
            separator,
        ));
    } else {
        split_apart(a, b.drop_last(), separator);
        split_is_not_empty(b.drop_last(), separator);
        assert(all.drop_last() =~= a + seq![separator] + b.drop_last());
        assert(all.last() == b.last());
        let front = split(a, separator);
        let back = split(b.drop_last(), separator);
        assert((front + back).push(Seq::empty()) =~= front + back.push(Seq::empty()));
        assert((front + back).drop_last().push((front + back).last().push(b.last())) =~= front
            + back.drop_last().push(back.last().push(b.last())));
    }
}

/// An empty text is one empty piece.
pub proof fn split_nothing(separator: char)
    ensures
        split(Seq::empty(), separator) == seq![Seq::<char>::empty()],
{
    split_whole(Seq::empty(), separator);
}

/// A text without separator is one piece.
pub proof fn split_whole(s: Seq<char>, separator: char)
    requires
        !s.contains(separator),
    ensures
        split(s, separator) == seq![s],
    decreases s.len(),
{
    reveal(split);
    if s.len() > 0 {
        assert forall|i: int| 0 <= i < s.len() - 1 implies s.drop_last()[i] != separator by {
            assert(s[i] != separator);
        }
        assert(!s.drop_last().contains(separator));
        split_whole(s.drop_last(), separator);
        assert(s.last() != separator) by {
            assert(s.contains(s.last()));
        }
        assert(s.drop_last().push(s.last()) =~= s);
        assert(split(s, separator) =~= seq![s]);
    } else {
        assert(s =~= Seq::empty());
        assert(split(s, separator) =~= seq![s]);
    }
}

/// A piece without separator comes first.
pub proof fn split_first(a: Seq<char>, b: Seq<char>, separator: char)
    requires
        !a.contains(separator),
    ensures
        split(a + seq![separator] + b, separator) == seq![a] + split(b, separator),
{
    split_apart(a, b, separator);
    split_whole(a, separator);
}

/// Texts joined by commas split into those texts.
pub proof fn joined_splits(n: nat, f: spec_fn(int) -> Seq<char>)
    requires
        n > 0,
        forall|i: int| 0 <= i < n ==> !(#[trigger] f(i)).contains(','),
    ensures
        split(bytes::joined(n, ","@, f), ',') == Seq::new(n, f),
    decreases n,
{
    reveal_strlit(",");
    assert(","@ =~= seq![',']);
    split_whole(f(n - 1), ',');
    if n == 1 {
        assert(Seq::new(n, f) =~= seq![f(0)]);
    } else {
        joined_splits((n - 1) as nat, f);
        split_apart(bytes::joined((n - 1) as nat, ","@, f), f(n - 1), ',');
        assert(Seq::new(n, f) =~= Seq::new((n - 1) as nat, f) + seq![f(n - 1)]);
    }
}

/// The texts of a list written with commas: without entries it is empty.
pub open spec fn listed(n: nat, f: spec_fn(int) -> Seq<char>) -> Seq<Seq<char>> {
    if n == 0 {
        seq![Seq::empty()]
    } else {
        Seq::new(n, f)
    }
}

/// A list written with commas reads back.
pub proof fn list_reads_back(n: nat, f: spec_fn(int) -> Seq<char>)
    requires
        forall|i: int| 0 <= i < n ==> !(#[trigger] f(i)).contains(','),
    ensures
        split(bytes::joined(n, ","@, f), ',') == listed(n, f),
{
    if n > 0 {
        joined_splits(n, f);
    } else {
        split_nothing(',');
    }
}

/// Texts joined by commas hold no other separator than their pieces do.
pub proof fn joined_lacks(n: nat, f: spec_fn(int) -> Seq<char>, c: char)
    requires
        c != ',',
        forall|i: int| 0 <= i < n ==> !(#[trigger] f(i)).contains(c),
    ensures
        !bytes::joined(n, ","@, f).contains(c),
    decreases n,
{
    reveal_strlit(",");
    if n > 1 {
        joined_lacks((n - 1) as nat, f, c);
        sum_lacks(bytes::joined((n - 1) as nat, ","@, f), ","@, c);
        sum_lacks(bytes::joined((n - 1) as nat, ","@, f) + ","@, f(n - 1), c);
    }
}

/// Two texts without a character give one without it.
pub proof fn sum_lacks(a: Seq<char>, b: Seq<char>, c: char)
    requires
        !a.contains(c),
        !b.contains(c),
    ensures
        !(a + b).contains(c),
{
    assert forall|i: int| 0 <= i < (a + b).len() implies (a + b)[i] != c by {
        if i < a.len() {
            assert(a.contains(a[i]));
        } else {
            assert(b.contains(b[i - a.len()]));
        }
    }
}

// ── numbers ───────────────────────────────────────────────────────────────────

/// The value of a decimal digit.
pub open spec fn digit_value(c: char) -> int {
    c as int - '0' as int
}

/// The number that decimal digits stand for.
pub open spec fn value(s: Seq<char>) -> int
    decreases s.len(),
{
    if s.len() == 0 {
        0
    } else {
        10 * value(s.drop_last()) + digit_value(s.last())
    }
}

/// The number that decimal digits stand for, with a sign before them or not.
pub open spec fn signed_value(s: Seq<char>) -> int {
    if s.len() > 0 && s[0] == '-' {
        -value(s.skip(1))
    } else {
        value(s)
    }
}

/// Whether a text is made of decimal digits.
pub open spec fn all_digits(s: Seq<char>) -> bool {
    forall|i: int| 0 <= i < s.len() ==> 0 <= digit_value(#[trigger] s[i]) <= 9
}

/// A written number reads back. It is made of digits and starts with no zero
/// but its only one.
pub proof fn decimal_reads_back(n: nat)
    ensures
        value(text::decimal(n)) == n,
        text::decimal(n).len() > 0,
        all_digits(text::decimal(n)),
        n > 0 ==> text::decimal(n)[0] != '0',
    decreases n,
{
    let s = text::decimal(n);
    if n < 10 {
        assert(s.drop_last() =~= Seq::empty());
        assert(value(s.drop_last()) == 0);
    } else {
        decimal_reads_back(n / 10);
        assert(s.drop_last() =~= text::decimal(n / 10));
        assert(n / 10 > 0);
    }
}

/// A written number holds digits only.
pub proof fn decimal_lacks(n: nat, c: char)
    requires
        !(0 <= digit_value(c) <= 9),
    ensures
        !text::decimal(n).contains(c),
{
    decimal_reads_back(n);
}

/// A written signed number reads back.
pub proof fn signed_decimal_reads_back(n: int)
    ensures
        signed_value(text::signed_decimal(n)) == n,
{
    let s = text::signed_decimal(n);
    if n < 0 {
        decimal_reads_back((-n) as nat);
        assert(s.skip(1) =~= text::decimal((-n) as nat));
    } else {
        decimal_reads_back(n as nat);
        assert(0 <= digit_value(s[0]) <= 9);
    }
}

/// A written signed number holds digits and a sign only.
pub proof fn signed_decimal_lacks(n: int, c: char)
    requires
        !(0 <= digit_value(c) <= 9),
        c != '-',
    ensures
        !text::signed_decimal(n).contains(c),
{
    if n < 0 {
        decimal_lacks((-n) as nat, c);
        sum_lacks(seq!['-'], text::decimal((-n) as nat), c);
    } else {
        decimal_lacks(n as nat, c);
    }
}

// ── lines ─────────────────────────────────────────────────────────────────────

/// What is known after some lines, `step` saying what one line adds.
pub open spec fn after_lines<S>(
    lines: Seq<Seq<char>>,
    start: S,
    step: spec_fn(S, Seq<char>) -> S,
) -> S
    decreases lines.len(),
{
    if lines.len() == 0 {
        start
    } else {
        step(after_lines(lines.drop_last(), start, step), lines.last())
    }
}

/// What is known after reading a text line by line.
pub open spec fn read<S>(s: Seq<char>, start: S, step: spec_fn(S, Seq<char>) -> S) -> S {
    after_lines(split(s, '\n'), start, step)
}

/// Whether a text ends with a line break, if it holds anything.
pub open spec fn line_ends(s: Seq<char>) -> bool {
    s.len() == 0 || s.last() == '\n'
}

/// An empty line tells nothing.
pub open spec fn skips_empty<S>(step: spec_fn(S, Seq<char>) -> S) -> bool {
    forall|state: S| #[trigger] step(state, Seq::empty()) == state
}

/// Reading one more line does its step.
pub proof fn read_line<S>(
    s: Seq<char>,
    line: Seq<char>,
    start: S,
    step: spec_fn(S, Seq<char>) -> S,
)
    requires
        line_ends(s),
        !line.contains('\n'),
        skips_empty(step),
    ensures
        line_ends(s + line + seq!['\n']),
        read(s + line + seq!['\n'], start, step) == step(read(s, start, step), line),
{
    let more = s + line + seq!['\n'];
    let nothing = Seq::<char>::empty();
    split_whole(line, '\n');
    split_nothing('\n');
    assert(more =~= (s + line) + seq!['\n'] + nothing);
    split_apart(s + line, nothing, '\n');
    if s.len() == 0 {
        assert(s + line =~= line);
        assert(s =~= nothing);
        let lines = seq![line] + seq![nothing];
        assert(lines.drop_last() =~= seq![line]);
        assert(seq![line].drop_last() =~= Seq::empty());
        assert(seq![nothing].drop_last() =~= Seq::<Seq<char>>::empty());
        assert(after_lines(Seq::<Seq<char>>::empty(), start, step) == start);
        assert(after_lines(seq![nothing], start, step) == step(start, nothing));
        assert(after_lines(seq![line], start, step) == step(start, line));
    } else {
        let front = s.drop_last();
        assert(s =~= front + seq!['\n'] + nothing);
        assert(s + line =~= front + seq!['\n'] + line);
        split_apart(front, line, '\n');
        split_apart(front, nothing, '\n');
        let known = split(front, '\n');
        let lines = known + seq![line] + seq![nothing];
        assert(lines.drop_last() =~= known + seq![line]);
        assert((known + seq![line]).drop_last() =~= known);
        assert((known + seq![nothing]).drop_last() =~= known);
        assert(read(s, start, step) == step(after_lines(known, start, step), nothing));
        assert(after_lines(known + seq![line], start, step) == step(
            after_lines(known, start, step),
            line,
        ));
    }
}

// ── scanning ──────────────────────────────────────────────────────────────────

/// What is known after some more characters, and the line begun with them: a
/// line break ends the line, and `step` says what it adds.
#[verifier::opaque]
pub open spec fn scan_from<S>(
    known: (S, Seq<char>),
    s: Seq<char>,
    step: spec_fn(S, Seq<char>) -> S,
) -> (S, Seq<char>)
    decreases s.len(),
{
    if s.len() == 0 {
        known
    } else {
        let (state, line) = scan_from(known, s.drop_last(), step);
        if s.last() == '\n' {
            (step(state, line), Seq::empty())
        } else {
            (state, line.push(s.last()))
        }
    }
}

/// What is known after reading a text, and the line begun at its end.
pub open spec fn scan<S>(s: Seq<char>, start: S, step: spec_fn(S, Seq<char>) -> S) -> (
    S,
    Seq<char>,
) {
    scan_from((start, Seq::empty()), s, step)
}

proof fn scan_from_more<S>(
    known: (S, Seq<char>),
    s: Seq<char>,
    t: Seq<char>,
    step: spec_fn(S, Seq<char>) -> S,
)
    ensures
        scan_from(known, s + t, step) == scan_from(scan_from(known, s, step), t, step),
    decreases t.len(),
{
    reveal(scan_from);
    if t.len() == 0 {
        assert(s + t =~= s);
    } else {
        scan_from_more(known, s, t.drop_last(), step);
        assert((s + t).drop_last() =~= s + t.drop_last());
    }
}

/// Reading a longer text goes on where the shorter one ended.
pub proof fn scan_more<S>(
    s: Seq<char>,
    t: Seq<char>,
    start: S,
    step: spec_fn(S, Seq<char>) -> S,
)
    ensures
        scan(s + t, start, step) == scan_from(scan(s, start, step), t, step),
{
    scan_from_more((start, Seq::empty()), s, t, step);
}

/// Characters other than line breaks make the line longer.
pub proof fn scan_plain<S>(
    state: S,
    line: Seq<char>,
    t: Seq<char>,
    step: spec_fn(S, Seq<char>) -> S,
)
    requires
        !t.contains('\n'),
    ensures
        scan_from((state, line), t, step) == (state, line + t),
    decreases t.len(),
{
    reveal(scan_from);
    if t.len() == 0 {
        assert(line + t =~= line);
    } else {
        assert forall|i: int| 0 <= i < t.len() - 1 implies t.drop_last()[i] != '\n' by {
            assert(t.contains(t[i]));
        }
        assert(t.contains(t.last()));
        scan_plain(state, line, t.drop_last(), step);
        assert((line + t.drop_last()).push(t.last()) =~= line + t);
    }
}

/// A line break ends the line.
pub proof fn scan_line<S>(
    state: S,
    line: Seq<char>,
    end: Seq<char>,
    rest: Seq<char>,
    step: spec_fn(S, Seq<char>) -> S,
)
    requires
        !end.contains('\n'),
    ensures
        scan_from((state, line), end + seq!['\n'] + rest, step) == scan_from(
            (step(state, line + end), Seq::empty()),
            rest,
            step,
        ),
{
    reveal(scan_from);
    let ended = end + seq!['\n'];
    scan_plain(state, line, end, step);
    assert(ended.drop_last() =~= end);
    scan_from_more((state, line), ended, rest, step);
}

/// Nothing read, nothing learnt.
pub proof fn scan_nothing<S>(state: S, line: Seq<char>, step: spec_fn(S, Seq<char>) -> S)
    ensures
        scan_from((state, line), Seq::empty(), step) == (state, line),
{
    reveal(scan_from);
}

/// Whether a text starts with another.
pub open spec fn begins(s: Seq<char>, prefix: Seq<char>) -> bool {
    prefix.len() <= s.len() && s.take(prefix.len() as int) == prefix
}

/// Whether two texts differ somewhere in what both have.
pub open spec fn differs(s: Seq<char>, prefix: Seq<char>) -> bool {
    exists|i: int| 0 <= i < s.len() && i < prefix.len() && #[trigger] s[i] != prefix[i]
}

/// A text that differs from another does not start with it, however it goes on.
pub proof fn differing_begin_not(s: Seq<char>, rest: Seq<char>, prefix: Seq<char>)
    requires
        differs(s, prefix),
    ensures
        !begins(s, prefix),
        !begins(s + rest, prefix),
        differs(s + rest, prefix),
{
    let i = choose|i: int| 0 <= i < s.len() && i < prefix.len() && #[trigger] s[i] != prefix[i];
    assert((s + rest)[i] == s[i]);
    if begins(s, prefix) {
        assert(s.take(prefix.len() as int)[i] == s[i]);
    }
    if begins(s + rest, prefix) {
        assert((s + rest).take(prefix.len() as int)[i] == s[i]);
    }
}

/// A text starts with its own first part.
pub proof fn begins_with_part(prefix: Seq<char>, rest: Seq<char>)
    ensures
        begins(prefix + rest, prefix),
        (prefix + rest).skip(prefix.len() as int) == rest,
{
    assert((prefix + rest).take(prefix.len() as int) =~= prefix);
    assert((prefix + rest).skip(prefix.len() as int) =~= rest);
}

/// Whether a piece stands at a place of a text.
pub open spec fn stands_at(text: Seq<char>, piece: Seq<char>, at: int) -> bool {
    0 <= at && at + piece.len() <= text.len() && text.subrange(at, at + piece.len()) == piece
}

/// Whether a text holds a piece somewhere.
pub open spec fn holds(text: Seq<char>, piece: Seq<char>) -> bool {
    exists|at: int| #[trigger] stands_at(text, piece, at)
}

/// What a text holds, it still holds with more behind it.
pub broadcast proof fn held_with_more(text: Seq<char>, more: Seq<char>, piece: Seq<char>)
    requires
        holds(text, piece),
    ensures
        #[trigger] holds(text + more, piece),
{
    let at = choose|at: int| #[trigger] stands_at(text, piece, at);
    assert((text + more).subrange(at, at + piece.len()) =~= text.subrange(at, at + piece.len()));
    assert(stands_at(text + more, piece, at));
}

/// What a text holds, it still holds behind another.
pub proof fn held_behind(front: Seq<char>, text: Seq<char>, piece: Seq<char>)
    requires
        holds(text, piece),
    ensures
        holds(front + text, piece),
{
    let at = choose|at: int| #[trigger] stands_at(text, piece, at);
    let n = front.len() as int;
    assert((front + text).subrange(n + at, n + at + piece.len()) =~= text.subrange(
        at,
        at + piece.len(),
    ));
    assert(stands_at(front + text, piece, n + at));
}

/// A text holds the three parts that it ends in.
pub proof fn ending_is_held(front: Seq<char>, a: Seq<char>, b: Seq<char>, c: Seq<char>)
    ensures
        holds(front + a + b + c, a + b + c),
{
    let text = front + a + b + c;
    let n = front.len() as int;
    assert(text.subrange(n, text.len() as int) =~= a + b + c);
    assert(stands_at(text, a + b + c, n));
}

/// A text holds the three parts that it starts with.
pub proof fn start_is_held(a: Seq<char>, b: Seq<char>, c: Seq<char>)
    ensures
        holds(a + b + c, a + b + c),
{
    let text = a + b + c;
    assert(text.subrange(0, text.len() as int) =~= text);
    assert(stands_at(text, text, 0));
}

/// A list of texts with separators holds each of them.
pub proof fn joined_holds(n: nat, separator: Seq<char>, f: spec_fn(int) -> Seq<char>, k: int)
    requires
        0 <= k < n,
    ensures
        holds(bytes::joined(n, separator, f), f(k)),
    decreases n,
{
    broadcast use held_with_more;

    let piece = f(k);
    assert(piece.subrange(0, piece.len() as int) =~= piece);
    assert(stands_at(piece, piece, 0));
    if n > 1 {
        if k < n - 1 {
            joined_holds((n - 1) as nat, separator, f, k);
        } else {
            held_behind(bytes::joined((n - 1) as nat, separator, f) + separator, piece, piece);
        }
    }
}

} // verus!

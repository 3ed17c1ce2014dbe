//! Little-endian bytes and concatenations of per-item pieces.
use vstd::prelude::*;
use vstd::string::StringExecFns;

verus! {

/// The two bytes of a 16-bit number, low byte first.
pub open spec fn le_u16(v: u16) -> Seq<u8> {
    seq![(v % 256) as u8, (v / 256) as u8]
}

/// The four bytes of a 32-bit number, low byte first.
#[verifier::opaque]
pub open spec fn le_u32(v: u32) -> Seq<u8> {
    seq![
        (v % 256) as u8,
        (v / 256 % 256) as u8,
        (v / 65536 % 256) as u8,
        (v / 16777216) as u8,
    ]
}

/// The number whose four bytes, low byte first, stand at `at`.
pub open spec fn read_u32(b: Seq<u8>, at: int) -> int {
    b[at] + 256 * b[at + 1] + 65536 * b[at + 2] + 16777216 * b[at + 3]
}

/// The pieces of the first `n` items, one after the other.
pub open spec fn flat<T>(n: nat, piece: spec_fn(int) -> Seq<T>) -> Seq<T>
    decreases n,
{
    if n == 0 {
        Seq::empty()
    } else {
        flat((n - 1) as nat, piece) + piece(n - 1)
    }
}

/// The pieces of the first `n` items with a separator between two of them.
pub open spec fn joined(n: nat, separator: Seq<char>, piece: spec_fn(int) -> Seq<char>) -> Seq<char>
    decreases n,
{
    if n == 0 {
        Seq::empty()
    } else if n == 1 {
        piece(0)
    } else {
        joined((n - 1) as nat, separator, piece) + separator + piece(n - 1)
    }
}

/// A 32-bit number takes four bytes.
pub broadcast proof fn le_u32_len(v: u32)
    ensures
        #[trigger] le_u32(v).len() == 4,
{
    reveal(le_u32);
}

/// Reading a number back gives the number that was written.
pub proof fn read_back_u32(b: Seq<u8>, at: int, v: u32)
    requires
        0 <= at,
        at + 4 <= b.len(),
        b.subrange(at, at + 4) == le_u32(v),
    ensures
        read_u32(b, at) == v,
{
    reveal(le_u32);
    let s = b.subrange(at, at + 4);
    assert(s[0] == b[at] && s[1] == b[at + 1] && s[2] == b[at + 2] && s[3] == b[at + 3]);
    let x: int = v as int;
    assert(x == x % 256 + 256 * (x / 256 % 256) + 65536 * (x / 65536 % 256) + 16777216 * (x
        / 16777216)) by (nonlinear_arith)
        requires
            0 <= x < 4294967296,
    ;
}

/// Pieces of equal length add up.
pub proof fn flat_len<T>(n: nat, piece: spec_fn(int) -> Seq<T>, size: nat)
    requires
        forall|i: int| 0 <= i < n ==> (#[trigger] piece(i)).len() == size,
    ensures
        flat(n, piece).len() == n * size,
    decreases n,
{
    if n > 0 {
        flat_len((n - 1) as nat, piece, size);
        assert(n * size == (n - 1) * size + size) by (nonlinear_arith);
    } else {
        assert(n * size == 0) by (nonlinear_arith)
            requires
                n == 0,
        ;
    }
}

/// Items with the same pieces give the same concatenation.
pub proof fn flat_same<T>(n: nat, f: spec_fn(int) -> Seq<T>, g: spec_fn(int) -> Seq<T>)
    requires
        forall|i: int| 0 <= i < n ==> #[trigger] f(i) == g(i),
    ensures
        flat(n, f) == flat(n, g),
    decreases n,
{
    if n > 0 {
        flat_same((n - 1) as nat, f, g);
    }
}

/// Items with the same pieces give the same joined text.
pub proof fn joined_same(
    n: nat,
    separator: Seq<char>,
    f: spec_fn(int) -> Seq<char>,
    g: spec_fn(int) -> Seq<char>,
)
    requires
        forall|i: int| 0 <= i < n ==> #[trigger] f(i) == g(i),
    ensures
        joined(n, separator, f) == joined(n, separator, g),
    decreases n,
{
    if n > 1 {
        joined_same((n - 1) as nat, separator, f, g);
    }
}

/// Join texts with commas.
pub fn join_texts(list: &Vec<String>) -> (r: String)
    ensures
        r@ == joined(list@.len(), ","@, |i: int| list@[i]@),
{
    let ghost f = |i: int| list@[i]@;
    let mut r = String::new();
    let mut i: usize = 0;
    while i < list.len()
        invariant
            i <= list.len(),
            f == (|i: int| list@[i]@),
            r@ == joined(i as nat, ","@, f),
        decreases list.len() - i,
    {
        let ghost piece = f(i as int);
        if i > 0 {
            r.append(",");
        }
        r.append(list[i].as_str());
        if i == 0 {
            assert(r@ =~= joined(1, ","@, f));
        }
        i += 1;
    }
    r
}

/// Append the two bytes of a 16-bit number.
pub fn push_u16(b: &mut Vec<u8>, v: u16)
    ensures
        final(b)@ == old(b)@ + le_u16(v),
{
    b.push((v % 256) as u8);
    b.push((v / 256) as u8);
    assert(b@ =~= old(b)@ + le_u16(v));
}

/// Append the four bytes of a 32-bit number.
pub fn push_u32(b: &mut Vec<u8>, v: u32)
    ensures
        final(b)@ == old(b)@ + le_u32(v),
{
    b.push((v % 256) as u8);
    b.push((v / 256 % 256) as u8);
    b.push((v / 65536 % 256) as u8);
    b.push((v / 16777216) as u8);
    proof {
        reveal(le_u32);
    }
    assert(b@ =~= old(b)@ + le_u32(v));
}

/// Append bytes.
pub fn push_all(b: &mut Vec<u8>, more: &Vec<u8>)
    ensures
        final(b)@ == old(b)@ + more@,
{
    let mut i: usize = 0;
    assert(b@ =~= old(b)@ + more@.take(0));
    while i < more.len()
        invariant
            i <= more.len(),
            b@ == old(b)@ + more@.take(i as int),
        decreases more.len() - i,
    {
        b.push(more[i]);
        assert(b@ =~= old(b)@ + more@.take(i + 1));
        i += 1;
    }
    assert(more@.take(i as int) =~= more@);
}

/// The bytes of a 16-bit number tell it: low byte first.
pub proof fn read_back_u16(v: u16)
    ensures
        le_u16(v).len() == 2,
        le_u16(v)[0] + 256 * le_u16(v)[1] == v,
{
}

/// Every piece stands behind the pieces before it.
pub proof fn flat_holds_each_piece<T>(n: nat, piece: spec_fn(int) -> Seq<T>, k: int)
    requires
        0 <= k < n,
    ensures
        flat(k as nat, piece).len() + piece(k).len() <= flat(n, piece).len(),
        forall|c: int|
            0 <= c < piece(k).len() ==> flat(n, piece)[flat(k as nat, piece).len() + c]
                == #[trigger] piece(k)[c],
    decreases n,
{
    if k < n - 1 {
        flat_holds_each_piece((n - 1) as nat, piece, k);
        let front = flat((n - 1) as nat, piece);
        assert forall|c: int| 0 <= c < piece(k).len() implies flat(n, piece)[flat(
            k as nat,
            piece,
        ).len() + c] == #[trigger] piece(k)[c] by {
            assert(front[flat(k as nat, piece).len() + c] == piece(k)[c]);
        }
    }
}

} // verus!

use vstd::prelude::*;

verus! {

/// The lowercase hexadecimal digit for a value below 16.
pub open spec fn hex_digit(n: u8) -> char {
    if n < 10 {
        (48 + n) as char
    } else {
        (87 + n) as char
    }
}

/// Lowercase hexadecimal encoding without a `0x` prefix: two digits per byte,
/// high nibble first.
pub open spec fn hex_encode(bytes: Seq<u8>) -> Seq<char>
    decreases bytes.len(),
{
    if bytes.len() == 0 {
        Seq::empty()
    } else {
        let last = bytes.last();
        hex_encode(bytes.drop_last()).push(hex_digit(last / 16)).push(hex_digit(last % 16))
    }
}

/// Every byte becomes two hexadecimal digits.
pub proof fn law_hex_length(bytes: Seq<u8>)
    ensures
        hex_encode(bytes).len() == 2 * bytes.len(),
    decreases bytes.len(),
{
    if bytes.len() > 0 {
        law_hex_length(bytes.drop_last());
    }
}

proof fn lemma_hex_digit_injective(x: u8, y: u8)
    requires
        x < 16,
        y < 16,
        hex_digit(x) == hex_digit(y),
    ensures
        x == y,
{
    let cx = if x < 10 { 48 + x } else { 87 + x };
    let cy = if y < 10 { 48 + y } else { 87 + y };
    assert(hex_digit(x) as int == cx);
    assert(hex_digit(y) as int == cy);
}

/// Different byte strings have different encodings.
pub proof fn law_hex_injective(a: Seq<u8>, b: Seq<u8>)
    requires
        hex_encode(a) == hex_encode(b),
    ensures
        a == b,
    decreases a.len(),
{
    law_hex_length(a);
    law_hex_length(b);
    if a.len() > 0 {
        let ha = hex_encode(a.drop_last());
        let hb = hex_encode(b.drop_last());
        let la = a.last();
        let lb = b.last();
        let ea = ha.push(hex_digit(la / 16)).push(hex_digit(la % 16));
        let eb = hb.push(hex_digit(lb / 16)).push(hex_digit(lb % 16));
        assert(ea[ea.len() - 1] == eb[eb.len() - 1]);
        assert(ea[ea.len() - 2] == eb[eb.len() - 2]);
        assert(ea.drop_last().drop_last() =~= ha);
        assert(eb.drop_last().drop_last() =~= hb);
        law_hex_injective(a.drop_last(), b.drop_last());
        lemma_hex_digit_injective(la / 16, lb / 16);
        lemma_hex_digit_injective(la % 16, lb % 16);
        assert(la == lb) by (nonlinear_arith)
            requires
                la / 16 == lb / 16,
                la % 16 == lb % 16,
        ;
        assert(a =~= a.drop_last().push(la));
        assert(b =~= b.drop_last().push(lb));
    } else {
        assert(a =~= b);
    }
}

/// Appends `c` to `s` with `String::push`. The contract claims what the
/// standard library documents: the string afterwards is the old one followed by
/// `c`.
#[verifier::external_body]
pub(crate) fn push_char(s: &mut String, c: char)
    ensures
        final(s)@ == old(s)@.push(c),
{
    s.push(c);
}

fn nibble_char(n: u8) -> (c: char)
    requires
        n < 16,
    ensures
        c == hex_digit(n),
{
    if n < 10 {
        (48 + n) as char
    } else {
        (87 + n) as char
    }
}

/// Appends the lowercase hexadecimal encoding of `bytes` to `out`.
pub fn append_hex(out: &mut String, bytes: &[u8])
    ensures
        final(out)@ == old(out)@ + hex_encode(bytes@),
{
    let ghost start = out@;
    let n = bytes.len();
    let mut i: usize = 0;
    while i < n
        invariant
            n == bytes@.len(),
            i <= n,
            out@ == start + hex_encode(bytes@.subrange(0, i as int)),
        decreases n - i,
    {
        let b = bytes[i];
        proof {
            let pre = bytes@.subrange(0, i as int + 1);
            assert(pre.drop_last() =~= bytes@.subrange(0, i as int));
            assert(pre.last() == b);
        }
        push_char(out, nibble_char(b / 16));
        push_char(out, nibble_char(b % 16));
        i = i + 1;
    }
    assert(bytes@.subrange(0, n as int) =~= bytes@);
}

/// The lowercase hexadecimal encoding of `bytes`, without a prefix.
pub fn encode_hex(bytes: &[u8]) -> (s: String)
    ensures
        s@ == hex_encode(bytes@),
{
    let mut s = String::new();
    append_hex(&mut s, bytes);
    assert(s@ =~= hex_encode(bytes@));
    s
}

} // verus!

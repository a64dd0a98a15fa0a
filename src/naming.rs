use vstd::prelude::*;

verus! {

/// The decimal digit for `d < 10`.
pub open spec fn digit_char(d: nat) -> char {
    if d == 0 { '0' }
    else if d == 1 { '1' }
    else if d == 2 { '2' }
    else if d == 3 { '3' }
    else if d == 4 { '4' }
    else if d == 5 { '5' }
    else if d == 6 { '6' }
    else if d == 7 { '7' }
    else if d == 8 { '8' }
    else { '9' }
}

/// The decimal notation of `n`, without leading zeros.
pub open spec fn decimal(n: nat) -> Seq<char>
    decreases n,
{
    if n < 10 {
        seq![digit_char(n)]
    } else {
        decimal(n / 10).push(digit_char(n % 10))
    }
}

/// The decimal notation of `n`, left-padded with zeros to at least `width` characters.
pub open spec fn zero_padded(n: nat, width: nat) -> Seq<char> {
    let d = decimal(n);
    if d.len() >= width {
        d
    } else {
        Seq::new((width - d.len()) as nat, |i: int| '0') + d
    }
}

/// The file name of segment `number`: `<stem>_split_<number, four digits>.<ext>`.
pub open spec fn split_name(stem: Seq<char>, ext: Seq<char>, number: u64) -> Seq<char> {
    stem + "_split_"@ + zero_padded(number as nat, 4) + "."@ + ext
}

fn digit_str(d: u64) -> (r: &'static str)
    requires
        d < 10,
    ensures
        r@ == seq![digit_char(d as nat)],
{
    proof {
        reveal_strlit("0");
        reveal_strlit("1");
        reveal_strlit("2");
        reveal_strlit("3");
        reveal_strlit("4");
        reveal_strlit("5");
        reveal_strlit("6");
        reveal_strlit("7");
        reveal_strlit("8");
        reveal_strlit("9");
    }
    if d == 0 { "0" }
    else if d == 1 { "1" }
    else if d == 2 { "2" }
    else if d == 3 { "3" }
    else if d == 4 { "4" }
    else if d == 5 { "5" }
    else if d == 6 { "6" }
    else if d == 7 { "7" }
    else if d == 8 { "8" }
    else {
        assert(seq!['9'] =~= "9"@);
        "9"
    }
}

fn push_decimal(s: &mut String, n: u64)
    ensures
        final(s)@ == old(s)@ + decimal(n as nat),
    decreases n,
{
    if n >= 10 {
        push_decimal(s, n / 10);
    }
    s.append(digit_str(n % 10));
    proof {
        if n >= 10 {
            assert(final(s)@ =~= old(s)@ + decimal(n as nat));
        } else {
            assert(final(s)@ =~= old(s)@ + decimal(n as nat));
        }
    }
}

fn decimal_len(n: u64) -> (r: u64)
    ensures
        r as nat == decimal(n as nat).len(),
    decreases n,
{
    if n < 10 {
        1
    } else {
        let k = decimal_len(n / 10);
        proof {
            lemma_decimal_len_bound((n / 10) as nat);
        }
        k + 1
    }
}

proof fn lemma_decimal_len_bound(n: nat)
    ensures
        decimal(n).len() <= n + 1,
    decreases n,
{
    if n >= 10 {
        lemma_decimal_len_bound(n / 10);
    }
}

/// The file name of segment `number` for a video with stem `stem` and
/// extension `ext`.
pub fn split_file_name(stem: &str, ext: &str, number: u64) -> (r: String)
    ensures
        r@ == split_name(stem@, ext@, number),
{
    let mut s = String::from_str(stem);
    s.append("_split_");
    let len = decimal_len(number);
    let mut pad: u64 = len;
    while pad < 4
        invariant
            len as nat == decimal(number as nat).len(),
            len <= pad <= 4 || (len > 4 && pad == len),
            s@ == stem@ + "_split_"@ + Seq::new((pad - len) as nat, |i: int| '0'),
        decreases 4 - pad,
    {
        s.append("0");
        proof {
            reveal_strlit("0");
        }
        pad = pad + 1;
        assert(s@ =~= stem@ + "_split_"@ + Seq::new((pad - len) as nat, |i: int| '0'));
    }
    push_decimal(&mut s, number);
    s.append(".");
    s.append(ext);
    assert(s@ =~= split_name(stem@, ext@, number));
    s
}

} // verus!

use vstd::prelude::*;

verus! {

/// The text wrapped in the chat markup's bold markers.
pub open spec fn spec_bold(s: Seq<char>) -> Seq<char> {
    "**"@ + s + "**"@
}

/// The markup for a link labelled `text` pointing at `url`.
pub open spec fn spec_hyperlink(text: Seq<char>, url: Seq<char>) -> Seq<char> {
    "["@ + text + "]("@ + url + ")"@
}

/// The single decimal digit standing for `n`.
pub open spec fn spec_digit(n: nat) -> Seq<char>
    recommends
        n < 10,
{
    if n == 0 {
        "0"@
    } else if n == 1 {
        "1"@
    } else if n == 2 {
        "2"@
    } else if n == 3 {
        "3"@
    } else if n == 4 {
        "4"@
    } else if n == 5 {
        "5"@
    } else if n == 6 {
        "6"@
    } else if n == 7 {
        "7"@
    } else if n == 8 {
        "8"@
    } else {
        "9"@
    }
}

/// The decimal rendering of `n`, most significant digit first, no leading zeros.
pub open spec fn spec_decimal(n: nat) -> Seq<char>
    decreases n,
{
    if n < 10 {
        spec_digit(n)
    } else {
        spec_decimal(n / 10) + spec_digit(n % 10)
    }
}

/// The decimal rendering of `n`, left-padded with `0` to at least two digits.
pub open spec fn spec_pad2(n: nat) -> Seq<char> {
    if n < 10 {
        "0"@ + spec_digit(n)
    } else {
        spec_decimal(n)
    }
}

/// `d` seconds rendered as zero-padded minutes and seconds, `MM:SS`.
pub open spec fn spec_format_duration(d: u64) -> Seq<char> {
    spec_pad2(d as nat / 60) + ":"@ + spec_pad2(d as nat % 60)
}

/// Wrap a string in bold markers.
pub fn bold(s: String) -> (r: String)
    ensures
        r@ == spec_bold(s@),
{
    let r = String::from_str("**").concat(s.as_str()).concat("**");
    proof {
        assert(r@ =~= spec_bold(s@));
    }
    r
}

/// Render a link labelled `text` pointing at `url`.
pub fn hyperlink(text: String, url: String) -> (r: String)
    ensures
        r@ == spec_hyperlink(text@, url@),
{
    let r = String::from_str("[").concat(text.as_str()).concat("](").concat(
        url.as_str(),
    ).concat(")");
    proof {
        assert(r@ =~= spec_hyperlink(text@, url@));
    }
    r
}

fn digit_str(n: u64) -> (r: &'static str)
    requires
        n < 10,
    ensures
        r@ == spec_digit(n as nat),
{
    match n {
        0 => "0",
        1 => "1",
        2 => "2",
        3 => "3",
        4 => "4",
        5 => "5",
        6 => "6",
        7 => "7",
        8 => "8",
        _ => "9",
    }
}

/// Render `n` in decimal.
pub fn u64_to_string(n: u64) -> (r: String)
    ensures
        r@ == spec_decimal(n as nat),
    decreases n,
{
    if n < 10 {
        digit_str(n).to_owned()
    } else {
        u64_to_string(n / 10).concat(digit_str(n % 10))
    }
}

fn pad2(n: u64) -> (r: String)
    ensures
        r@ == spec_pad2(n as nat),
{
    if n < 10 {
        String::from_str("0").concat(u64_to_string(n).as_str())
    } else {
        u64_to_string(n)
    }
}

/// Render a duration of `d` seconds as zero-padded `MM:SS`.
pub fn format_duration(d: u64) -> (r: String)
    ensures
        r@ == spec_format_duration(d),
{
    let r = pad2(d / 60).concat(":").concat(pad2(d % 60).as_str());
    proof {
        assert(r@ =~= spec_format_duration(d));
    }
    r
}

} // verus!

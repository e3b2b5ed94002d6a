//! Deterministic rendering of an item's display attributes into the one
//! announcement line. Sizes are rendered in gigabytes with two decimal
//! places; the download link gets its path segment pluralized and its
//! final dot-delimited suffix removed.
use vstd::prelude::*;
use vstd::string::*;
use crate::item::ApiItem;

verus! {

/// The decimal digit character for a value below ten.
pub open spec fn digit_char(d: int) -> char {
    if d == 0 { '0' }
    else if d == 1 { '1' }
    else if d == 2 { '2' }
    else if d == 3 { '3' }
    else if d == 4 { '4' }
    else if d == 5 { '5' }
    else if d == 6 { '6' }
    else if d == 7 { '7' }
    else if d == 8 { '8' }
    else { '9' }
}

/// Decimal rendering of a natural number, most significant digit first.
pub open spec fn dec_str(n: nat) -> Seq<char>
    decreases n,
{
    if n < 10 {
        seq![digit_char(n as int)]
    } else {
        dec_str(n / 10).push(digit_char((n % 10) as int))
    }
}

fn digit_str(d: u8) -> (s: &'static str)
    requires
        d < 10,
    ensures
        s@ == seq![digit_char(d as int)],
{
    proof {
        reveal_strlit("0");
        reveal_strlit("1");
        reveal_strlit("2");
        reveal_strlit("3");
        reveal_strlit("4");
        reveal_strlit("5");
        reveal_strlit("6");
        reveal_strlit("7");
        reveal_strlit("8");
        reveal_strlit("9");
        assert("0"@ =~= seq![digit_char(0)]);
        assert("1"@ =~= seq![digit_char(1)]);
        assert("2"@ =~= seq![digit_char(2)]);
        assert("3"@ =~= seq![digit_char(3)]);
        assert("4"@ =~= seq![digit_char(4)]);
        assert("5"@ =~= seq![digit_char(5)]);
        assert("6"@ =~= seq![digit_char(6)]);
        assert("7"@ =~= seq![digit_char(7)]);
        assert("8"@ =~= seq![digit_char(8)]);
        assert("9"@ =~= seq![digit_char(9)]);
    }
    if d == 0 { "0" }
    else if d == 1 { "1" }
    else if d == 2 { "2" }
    else if d == 3 { "3" }
    else if d == 4 { "4" }
    else if d == 5 { "5" }
    else if d == 6 { "6" }
    else if d == 7 { "7" }
    else if d == 8 { "8" }
    else { "9" }
}

/// Renders a number in decimal.
pub fn dec_of_u64(n: u64) -> (s: String)
    ensures
        s@ == dec_str(n as nat),
    decreases n,
{
    if n < 10 {
        String::from_str(digit_str(n as u8))
    } else {
        let mut s = dec_of_u64(n / 10);
        s.append(digit_str((n % 10) as u8));
        proof {
            assert(dec_str((n / 10) as nat).push(digit_char((n % 10) as int))
                =~= dec_str((n / 10) as nat) + seq![digit_char((n % 10) as int)]);
        }
        s
    }
}

/// The item's size in hundredths of a gigabyte, rounded half up:
/// bytes divided by 1024^3, kept to two decimal places.
pub open spec fn size_hundredths(size: u64) -> int {
    (size * 100 + 536870912) / 1073741824
}

fn gb_hundredths(size: u64) -> (h: u64)
    ensures
        h == size_hundredths(size),
{
    let wide: u128 = (size as u128) * 100 + 536870912;
    let h_wide: u128 = wide / 1073741824;
    proof {
        assert(wide <= 0xffffffffffffffffu128 * 100 + 536870912);
        assert(h_wide <= (0xffffffffffffffffu128 * 100 + 536870912) / 1073741824) by {
            vstd::arithmetic::div_mod::lemma_div_is_ordered(
                wide as int,
                0xffffffffffffffffu128 * 100 + 536870912,
                1073741824,
            );
        }
    }
    h_wide as u64
}

/// The size line: whole gigabytes, a dot, then exactly two decimals.
pub open spec fn size_str(size: u64) -> Seq<char> {
    dec_str((size_hundredths(size) / 100) as nat)
        + seq!['.']
        + seq![digit_char((size_hundredths(size) / 10) % 10)]
        + seq![digit_char(size_hundredths(size) % 10)]
}

/// Renders the size in gigabytes with two decimal places.
pub fn format_size(size: u64) -> (s: String)
    ensures
        s@ == size_str(size),
{
    let h = gb_hundredths(size);
    let mut s = dec_of_u64(h / 100);
    proof {
        reveal_strlit(".");
        assert("."@ =~= seq!['.']);
    }
    s.append(".");
    s.append(digit_str(((h / 10) % 10) as u8));
    s.append(digit_str((h % 10) as u8));
    s
}

/// Left-to-right, non-overlapping replacement of every occurrence of
/// `pat` in `s` by `rep`.
pub open spec fn replace_all(s: Seq<char>, pat: Seq<char>, rep: Seq<char>) -> Seq<char>
    decreases s.len(),
{
    if pat.len() == 0 || s.len() < pat.len() {
        s
    } else if s.take(pat.len() as int) == pat {
        rep + replace_all(s.skip(pat.len() as int), pat, rep)
    } else {
        seq![s[0]] + replace_all(s.skip(1), pat, rep)
    }
}

fn starts_with_pat(s: &str, pat: &str) -> (b: bool)
    ensures
        b == (s@.len() >= pat@.len() && s@.take(pat@.len() as int) == pat@),
{
    let n = pat.unicode_len();
    let m = s.unicode_len();
    if m < n {
        return false;
    }
    let mut i: usize = 0;
    while i < n
        invariant
            i <= n,
            n == pat@.len(),
            m == s@.len(),
            m >= n,
            forall|j: int| 0 <= j < i ==> s@[j] == pat@[j],
        decreases n - i,
    {
        if s.get_char(i) != pat.get_char(i) {
            proof {
                assert(s@.take(n as int)[i as int] != pat@[i as int]);
            }
            return false;
        }
        i = i + 1;
    }
    proof {
        assert(s@.take(n as int) =~= pat@);
    }
    true
}

/// Replaces every occurrence of `pat` in `s` by `rep`, scanning left to
/// right without overlap.
pub fn replace_all_str(s: &str, pat: &str, rep: &str) -> (r: String)
    requires
        pat@.len() > 0,
    ensures
        r@ == replace_all(s@, pat@, rep@),
    decreases s@.len(),
{
    let m = s.unicode_len();
    let n = pat.unicode_len();
    if m < n {
        String::from_str(s)
    } else if starts_with_pat(s, pat) {
        let rest = s.substring_char(n, m);
        proof {
            assert(rest@ =~= s@.skip(n as int));
        }
        let tail = replace_all_str(rest, pat, rep);
        let mut out = String::from_str(rep);
        out.append(tail.as_str());
        out
    } else {
        let head = s.substring_char(0, 1);
        let rest = s.substring_char(1, m);
        proof {
            assert(head@ =~= seq![s@[0]]);
            assert(rest@ =~= s@.skip(1));
        }
        let tail = replace_all_str(rest, pat, rep);
        let mut out = String::from_str(head);
        out.append(tail.as_str());
        out
    }
}

/// The index of the last '.' in `s`, or -1 when there is none.
pub open spec fn last_dot_index(s: Seq<char>) -> int
    decreases s.len(),
{
    if s.len() == 0 {
        -1
    } else if s.last() == '.' {
        s.len() - 1
    } else {
        last_dot_index(s.drop_last())
    }
}

/// Everything before the last '.' of `s`; the fixed placeholder when `s`
/// has no '.' at all.
pub open spec fn suffix_stripped(s: Seq<char>) -> Seq<char> {
    if last_dot_index(s) >= 0 {
        s.take(last_dot_index(s))
    } else {
        seq!['N', '/', 'A']
    }
}

proof fn lemma_last_dot_at(s: Seq<char>, i: int)
    requires
        0 <= i < s.len(),
        s[i] == '.',
        forall|j: int| i < j < s.len() ==> s[j] != '.',
    ensures
        last_dot_index(s) == i,
    decreases s.len(),
{
    if i < s.len() - 1 {
        lemma_last_dot_at(s.drop_last(), i);
    }
}

proof fn lemma_no_dot(s: Seq<char>)
    requires
        forall|j: int| 0 <= j < s.len() ==> s[j] != '.',
    ensures
        last_dot_index(s) == -1,
    decreases s.len(),
{
    if s.len() > 0 {
        lemma_no_dot(s.drop_last());
    }
}

/// Removes the final dot-delimited suffix of `s`; a string with no '.'
/// yields the placeholder.
pub fn strip_after_last_dot(s: &str) -> (r: String)
    ensures
        r@ == suffix_stripped(s@),
{
    let m = s.unicode_len();
    let mut i: usize = m;
    while i > 0
        invariant
            i <= m,
            m == s@.len(),
            forall|j: int| i <= j < m ==> s@[j] != '.',
        decreases i,
    {
        if s.get_char(i - 1) == '.' {
            proof {
                lemma_last_dot_at(s@, i - 1);
            }
            return String::from_str(s.substring_char(0, i - 1));
        }
        i = i - 1;
    }
    proof {
        lemma_no_dot(s@);
        reveal_strlit("N/A");
        assert("N/A"@ =~= seq!['N', '/', 'A']);
    }
    String::from_str("N/A")
}

/// How the internal flag renders: 0 and 1 are "No" and "Yes"; any other
/// value renders as the placeholder.
pub open spec fn internal_str(internal: u8) -> Seq<char> {
    if internal == 0 {
        seq!['N', 'o']
    } else if internal == 1 {
        seq!['Y', 'e', 's']
    } else {
        seq!['N', '/', 'A']
    }
}

fn internal_status(internal: u8) -> (r: &'static str)
    ensures
        r@ == internal_str(internal),
{
    proof {
        reveal_strlit("No");
        reveal_strlit("Yes");
        reveal_strlit("N/A");
        assert("No"@ =~= seq!['N', 'o']);
        assert("Yes"@ =~= seq!['Y', 'e', 's']);
        assert("N/A"@ =~= seq!['N', '/', 'A']);
    }
    if internal == 0 { "No" } else if internal == 1 { "Yes" } else { "N/A" }
}

/// How a yes/no flag renders.
pub open spec fn yes_no_str(b: bool) -> Seq<char> {
    if b { seq!['Y', 'e', 's'] } else { seq!['N', 'o'] }
}

fn yes_no(b: bool) -> (r: &'static str)
    ensures
        r@ == yes_no_str(b),
{
    proof {
        reveal_strlit("No");
        reveal_strlit("Yes");
        assert("No"@ =~= seq!['N', 'o']);
        assert("Yes"@ =~= seq!['Y', 'e', 's']);
    }
    if b { "Yes" } else { "No" }
}

/// How the optional resolution renders: the value itself, or the
/// placeholder when absent.
pub open spec fn resolution_str(r: Option<String>) -> Seq<char> {
    match r {
        Option::Some(s) => s@,
        Option::None => seq!['N', '/', 'A'],
    }
}

/// The announced form of the download link: the path segment
/// pluralization applied, then the final dot-delimited suffix removed.
pub open spec fn link_str(link: Seq<char>) -> Seq<char> {
    suffix_stripped(replace_all(link, "torrent"@, "torrents"@))
}

/// The whole announcement line for one item.
pub open spec fn message_str(item: ApiItem) -> Seq<char> {
    "Category ["@ + item.attributes.category@
        + "] Type ["@ + item.attributes.kind@
        + "] Name ["@ + item.attributes.name@
        + "] Resolution ["@ + resolution_str(item.attributes.resolution)
        + "] Freeleech ["@ + item.attributes.freeleech@
        + "] Internal ["@ + internal_str(item.attributes.internal)
        + "] Double Upload ["@ + yes_no_str(item.attributes.double_upload)
        + "] Size ["@ + size_str(item.attributes.size)
        + " GB] Uploader ["@ + item.attributes.uploader@
        + "] Url ["@ + link_str(item.attributes.download_link@)
        + "]"@
}

/// Renders the single announcement line for `item`, exactly as
/// `message_str` states it.
pub fn format_message(item: &ApiItem) -> (r: String)
    ensures
        r@ == message_str(*item),
{
    let mut out = String::from_str("Category [");
    out.append(item.attributes.category.as_str());
    out.append("] Type [");
    out.append(item.attributes.kind.as_str());
    out.append("] Name [");
    out.append(item.attributes.name.as_str());
    out.append("] Resolution [");
    match &item.attributes.resolution {
        Option::Some(s) => {
            out.append(s.as_str());
        },
        Option::None => {
            proof {
                reveal_strlit("N/A");
                assert("N/A"@ =~= seq!['N', '/', 'A']);
            }
            out.append("N/A");
        },
    }
    out.append("] Freeleech [");
    out.append(item.attributes.freeleech.as_str());
    out.append("] Internal [");
    out.append(internal_status(item.attributes.internal));
    out.append("] Double Upload [");
    out.append(yes_no(item.attributes.double_upload));
    out.append("] Size [");
    let size_s = format_size(item.attributes.size);
    out.append(size_s.as_str());
    out.append(" GB] Uploader [");
    out.append(item.attributes.uploader.as_str());
    out.append("] Url [");
    proof {
        reveal_strlit("torrent");
    }
    let plural = replace_all_str(item.attributes.download_link.as_str(), "torrent", "torrents");
    let link = strip_after_last_dot(plural.as_str());
    out.append(link.as_str());
    out.append("]");
    proof {
        assert(out@ =~= message_str(*item));
    }
    out
}

} // verus!

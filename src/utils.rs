//! Text shown with a track: its timestamp, the domain it streams from.

use vstd::prelude::*;

verus! {

/// A track's length or position: whole seconds and the nanoseconds beyond.
#[derive(Debug, Clone, Copy, PartialEq, Eq, Structural)]
pub struct TrackDuration {
    pub secs: u64,
    pub nanos: u32,
}

/// The largest duration, used for streams that do not end.
pub open spec fn is_max(d: TrackDuration) -> bool {
    d.secs == u64::MAX && d.nanos == 999_999_999
}

pub open spec fn digit(d: nat) -> char {
    if d == 0 { '0' } else if d == 1 { '1' } else if d == 2 { '2' } else if d == 3 { '3' }
    else if d == 4 { '4' } else if d == 5 { '5' } else if d == 6 { '6' } else if d == 7 { '7' }
    else if d == 8 { '8' } else { '9' }
}

/// `n` in decimal, without leading zeros.
pub open spec fn decimal(n: nat) -> Seq<char>
    decreases n,
{
    if n < 10 { seq![digit(n)] } else { decimal(n / 10).push(digit(n % 10)) }
}

/// `n < 100` in two digits, with a leading zero.
pub open spec fn two_digits(n: nat) -> Seq<char> {
    seq![digit(n / 10), digit(n % 10)]
}

/// `mm:ss` below an hour, `h:mm:ss` from an hour on, `∞` for no duration or
/// the largest one.
pub open spec fn timestamp_text(duration: Option<TrackDuration>) -> Seq<char> {
    match duration {
        Some(d) => if is_max(d) {
            seq!['∞']
        } else {
            let s = (d.secs % 60) as nat;
            let m = ((d.secs / 60) % 60) as nat;
            let h = (d.secs / 3600) as nat;
            if h < 1 {
                two_digits(m) + seq![':'] + two_digits(s)
            } else {
                decimal(h) + seq![':'] + two_digits(m) + seq![':'] + two_digits(s)
            }
        },
        None => seq!['∞'],
    }
}

fn digit_char(d: u64) -> (r: char)
    requires
        d < 10,
    ensures
        r == digit(d as nat),
{
    if d == 0 { '0' } else if d == 1 { '1' } else if d == 2 { '2' } else if d == 3 { '3' }
    else if d == 4 { '4' } else if d == 5 { '5' } else if d == 6 { '6' } else if d == 7 { '7' }
    else if d == 8 { '8' } else { '9' }
}

fn push_decimal(out: &mut Vec<char>, n: u64)
    ensures
        final(out)@ == old(out)@ + decimal(n as nat),
    decreases n,
{
    if n >= 10 {
        push_decimal(out, n / 10);
    }
    out.push(digit_char(n % 10));
    proof {
        if n >= 10 {
            assert(final(out)@ =~= old(out)@ + decimal(n as nat));
        } else {
            assert(final(out)@ =~= old(out)@ + decimal(n as nat));
        }
    }
}

fn push_two_digits(out: &mut Vec<char>, n: u64)
    requires
        n < 100,
    ensures
        final(out)@ == old(out)@ + two_digits(n as nat),
{
    out.push(digit_char(n / 10));
    out.push(digit_char(n % 10));
    proof {
        assert(final(out)@ =~= old(out)@ + two_digits(n as nat));
    }
}

/// Relies on `String: FromIterator<char>`: the characters, in order.
#[verifier::external_body]
pub(crate) fn string_from_chars(chars: &Vec<char>) -> (r: String)
    ensures
        r@ == chars@,
{
    chars.iter().collect()
}

/// A duration as people read it, `∞` when there is none.
pub fn get_human_readable_timestamp(duration: Option<TrackDuration>) -> (r: String)
    ensures
        r@ == timestamp_text(duration),
{
    let mut out: Vec<char> = Vec::new();
    match duration {
        Some(d) => {
            if d.secs == u64::MAX && d.nanos == 999_999_999 {
                out.push('∞');
            } else {
                let seconds = d.secs % 60;
                let minutes = (d.secs / 60) % 60;
                let hours = d.secs / 3600;
                if hours >= 1 {
                    push_decimal(&mut out, hours);
                    out.push(':');
                }
                push_two_digits(&mut out, minutes);
                out.push(':');
                push_two_digits(&mut out, seconds);
            }
        },
        None => {
            out.push('∞');
        },
    }
    proof {
        assert(out@ =~= timestamp_text(duration));
    }
    string_from_chars(&out)
}

/// Whether `b` ends with `a`.
pub open spec fn ends_with(b: Seq<char>, a: Seq<char>) -> bool {
    a.len() <= b.len() && b.subrange(b.len() - a.len(), b.len() as int) == a
}

/// Whether `subdomain` is `domain` or one of its subdomains.
pub fn compare_domains(domain: &str, subdomain: &str) -> (r: bool)
    ensures
        r == (subdomain@ == domain@ || ends_with(subdomain@, domain@)),
{
    let n = domain.unicode_len();
    let m = subdomain.unicode_len();
    if n > m {
        return false;
    }
    let off = m - n;
    let mut i: usize = 0;
    while i < n
        invariant
            n == domain@.len(),
            m == subdomain@.len(),
            off == m - n,
            0 <= i <= n,
            forall|j: int| 0 <= j < i ==> subdomain@[off + j] == domain@[j],
        decreases n - i,
    {
        if subdomain.get_char(off + i) != domain.get_char(i) {
            proof {
                assert(subdomain@.subrange(off as int, m as int)[i as int] != domain@[i as int]);
            }
            return false;
        }
        i += 1;
    }
    proof {
        assert(subdomain@.subrange(off as int, m as int) =~= domain@);
    }
    true
}

/// `s` with every `www.` taken out, scanning from the left.
pub open spec fn strip_www(s: Seq<char>) -> Seq<char>
    decreases s.len(),
{
    if s.len() < 4 {
        s
    } else if s.subrange(0, 4) == seq!['w', 'w', 'w', '.'] {
        strip_www(s.subrange(4, s.len() as int))
    } else {
        seq![s[0]] + strip_www(s.drop_first())
    }
}

/// The footer of a track streamed from `host`: a line naming the domain, and
/// the address of the domain's icon.
pub open spec fn footer_of(host: Seq<char>) -> (Seq<char>, Seq<char>) {
    ("Streaming via "@ + strip_www(host), "https://www.google.com/s2/favicons?domain="@ + strip_www(host))
}

fn strip_www_exec(s: &str) -> (r: Vec<char>)
    ensures
        r@ == strip_www(s@),
{
    let n = s.unicode_len();
    let mut out: Vec<char> = Vec::new();
    let mut i: usize = 0;
    proof {
        assert(s@.subrange(0, n as int) =~= s@);
        assert(out@ + strip_www(s@) =~= strip_www(s@));
    }
    while i < n
        invariant
            n == s@.len(),
            0 <= i <= n,
            out@ + strip_www(s@.subrange(i as int, n as int)) == strip_www(s@),
        decreases n - i,
    {
        let rest = Ghost(s@.subrange(i as int, n as int));
        if n - i >= 4 && s.get_char(i) == 'w' && s.get_char(i + 1) == 'w' && s.get_char(i + 2) == 'w'
            && s.get_char(i + 3) == '.' {
            proof {
                assert(rest@.subrange(0, 4) =~= seq!['w', 'w', 'w', '.']);
                assert(rest@.subrange(4, rest@.len() as int) =~= s@.subrange(i + 4, n as int));
            }
            i += 4;
        } else {
            proof {
                if rest@.len() >= 4 {
                    assert(rest@.subrange(0, 4)[0] == s@[i as int]);
                    assert(rest@.subrange(0, 4)[1] == s@[i + 1]);
                    assert(rest@.subrange(0, 4)[2] == s@[i + 2]);
                    assert(rest@.subrange(0, 4)[3] == s@[i + 3]);
                    assert(rest@.subrange(0, 4) != seq!['w', 'w', 'w', '.']);
                }
                assert(rest@.drop_first() =~= s@.subrange(i + 1, n as int));
                assert(out@.push(s@[i as int]) + strip_www(s@.subrange(i + 1, n as int)) =~= out@ + (seq![s@[i as int]] + strip_www(rest@.drop_first())));
            }
            out.push(s.get_char(i));
            i += 1;
        }
    }
    proof {
        assert(out@ + strip_www(s@.subrange(n as int, n as int)) =~= out@);
    }
    out
}

/// The footer of a track streamed from `host`.
pub fn footer_info_for_host(host: &str) -> (r: (String, String))
    ensures
        r.0@ == footer_of(host@).0,
        r.1@ == footer_of(host@).1,
{
    let domain = string_from_chars(&strip_www_exec(host));
    let mut text = String::from_str("Streaming via ");
    text.append(domain.as_str());
    let mut icon = String::from_str("https://www.google.com/s2/favicons?domain=");
    icon.append(domain.as_str());
    (text, icon)
}

/// The host of the URL that `s` parses into, when it parses and has one.
pub uninterp spec fn url_host(s: Seq<char>) -> Option<Seq<char>>;

/// Relies on url::Url::parse and Url::host_str: the host part of the URL
/// that `s` parses into; `None` when `s` does not parse or has no host.
#[verifier::external_body]
fn parse_host(s: &str) -> (r: Option<String>)
    ensures
        match r {
            Some(h) => url_host(s@) == Some(h@),
            None => url_host(s@) is None,
        },
{
    url::Url::parse(s).ok().and_then(|u| u.host_str().map(|h| h.to_string()))
}

/// The footer of a track streamed from `url`; `None` when `url` does not
/// parse or names no host.
pub fn get_footer_info(url: &str) -> (r: Option<(String, String)>)
    ensures
        match url_host(url@) {
            Some(h) => r matches Some((text, icon)) && text@ == footer_of(h).0 && icon@ == footer_of(h).1,
            None => r is None,
        },
{
    match parse_host(url) {
        Some(host) => Some(footer_info_for_host(host.as_str())),
        None => None,
    }
}

} // verus!

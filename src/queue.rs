//! Pagination of the queue display: page count, navigation and buttons.

use vstd::prelude::*;
use crate::cache::{other_message, QueueDisplay};
use crate::guild::GuildPlaybackState;
use crate::utils::string_from_chars;

verus! {

/// Number of pending tracks shown on one page of a queue display.
pub const EMBED_PAGE_SIZE: usize = 6;

/// `max(1, ceil((len - 1) / P))`: the now-playing track is not paginated.
pub open spec fn num_pages(len: nat) -> nat {
    if len <= 1 {
        1
    } else {
        ((len - 1 + EMBED_PAGE_SIZE - 1) as nat) / (EMBED_PAGE_SIZE as nat)
    }
}

/// Number of pages a display of a queue holding `len` tracks has.
pub fn calculate_num_pages(len: usize) -> (r: usize)
    ensures
        r == num_pages(len as nat),
        r >= 1,
{
    if len <= 1 {
        1
    } else {
        let pending: usize = len - 1;
        let r = pending / EMBED_PAGE_SIZE + if pending % EMBED_PAGE_SIZE == 0 { 0 } else { 1 };
        assert(r == ((len - 1 + EMBED_PAGE_SIZE - 1) as nat) / (EMBED_PAGE_SIZE as nat)) by (nonlinear_arith)
            requires pending == len - 1, len >= 2,
                r == pending / 6 + if pending % 6 == 0 { 0int } else { 1int };
        r
    }
}

} // verus!

verus! {

/// The four navigation buttons of a queue display.
#[derive(Debug, Clone, Copy, PartialEq, Eq, Structural)]
pub enum NavAction {
    First,
    Previous,
    Next,
    Last,
}

/// The page that a click on `action` leads to from `page`.
pub open spec fn nav_target(page: nat, action: NavAction, len: nat) -> nat {
    let last = (num_pages(len) - 1) as nat;
    match action {
        NavAction::First => 0,
        NavAction::Previous => {
            let p = if page == 0 { 0 } else { (page - 1) as nat };
            if p < last { p } else { last }
        },
        NavAction::Next => if page + 1 < last { page + 1 } else { last },
        NavAction::Last => last,
    }
}

/// The page a display on `page` of a queue of `len` tracks moves to.
pub fn navigate(page: usize, action: NavAction, len: usize) -> (r: usize)
    ensures
        r == nav_target(page as nat, action, len as nat),
        r < num_pages(len as nat),
{
    let last = calculate_num_pages(len) - 1;
    match action {
        NavAction::First => 0,
        NavAction::Previous => {
            let p = if page == 0 { 0 } else { page - 1 };
            if p < last { p } else { last }
        },
        NavAction::Next => if page < last && page + 1 < last { page + 1 } else { last },
        NavAction::Last => last,
    }
}

/// Whether two texts hold the same characters.
pub fn same_text(a: &str, b: &str) -> (r: bool)
    ensures
        r == (a@ == b@),
{
    let n = a.unicode_len();
    if n != b.unicode_len() {
        return false;
    }
    let mut i: usize = 0;
    while i < n
        invariant
            n == a@.len() == b@.len(),
            0 <= i <= n,
            a@.subrange(0, i as int) == b@.subrange(0, i as int),
        decreases n - i,
    {
        if a.get_char(i) != b.get_char(i) {
            proof {
                assert(a@[i as int] != b@[i as int]);
            }
            return false;
        }
        i += 1;
        proof {
            assert(a@.subrange(0, i as int) =~= b@.subrange(0, i as int));
        }
    }
    proof {
        assert(a@ =~= a@.subrange(0, n as int));
        assert(b@ =~= b@.subrange(0, n as int));
    }
    true
}

/// The action of the button with this id, if it is one of the four.
pub fn parse_nav_action(custom_id: &str) -> (r: Option<NavAction>)
    ensures
        r == Some(NavAction::First) <==> custom_id@ == "<<"@,
        r == Some(NavAction::Previous) <==> custom_id@ == "<"@,
        r == Some(NavAction::Next) <==> custom_id@ == ">"@,
        r == Some(NavAction::Last) <==> custom_id@ == ">>"@,
{
    proof {
        reveal_strlit("<<");
        reveal_strlit("<");
        reveal_strlit(">");
        reveal_strlit(">>");
        assert("<<"@.len() == 2 && ">>"@.len() == 2 && "<"@.len() == 1 && ">"@.len() == 1);
        assert("<<"@[0] != ">>"@[0] && "<"@[0] != ">"@[0]);
    }
    if same_text(custom_id, "<<") {
        Some(NavAction::First)
    } else if same_text(custom_id, "<") {
        Some(NavAction::Previous)
    } else if same_text(custom_id, ">") {
        Some(NavAction::Next)
    } else if same_text(custom_id, ">>") {
        Some(NavAction::Last)
    } else {
        None
    }
}

/// A navigation button as the chat platform is asked to draw it.
#[derive(Debug)]
pub struct NavButton {
    pub custom_id: String,
    pub label: String,
    pub disabled: bool,
}

/// `c` with an ASCII upper-case letter mapped to its lower case.
pub open spec fn ascii_lower(c: char) -> char {
    if 'A' <= c && c <= 'Z' { ((c as u32) + 32) as char } else { c }
}

fn lower_char(c: char) -> (r: char)
    ensures
        r == ascii_lower(c),
{
    if 'A' <= c && c <= 'Z' {
        let b = (c as u32) + 32;
        (b as u8) as char
    } else {
        c
    }
}

/// `s` with every ASCII upper-case letter in lower case.
fn to_ascii_lowercase(s: &str) -> (r: String)
    ensures
        r@ == s@.map_values(|c: char| ascii_lower(c)),
{
    let n = s.unicode_len();
    let mut out: Vec<char> = Vec::new();
    let mut i: usize = 0;
    while i < n
        invariant
            n == s@.len(),
            0 <= i <= n,
            out@ == s@.subrange(0, i as int).map_values(|c: char| ascii_lower(c)),
        decreases n - i,
    {
        out.push(lower_char(s.get_char(i)));
        i += 1;
        proof {
            assert(out@ =~= s@.subrange(0, i as int).map_values(|c: char| ascii_lower(c)));
        }
    }
    proof {
        assert(s@.subrange(0, n as int) =~= s@);
    }
    string_from_chars(&out)
}

/// A button whose id is its label in lower case.
pub fn build_single_nav_btn(label: &str, is_disabled: bool) -> (r: NavButton)
    ensures
        r.custom_id@ == label@.map_values(|c: char| ascii_lower(c)),
        r.label@ == label@,
        r.disabled == is_disabled,
{
    NavButton {
        custom_id: to_ascii_lowercase(label),
        label: String::from_str(label),
        disabled: is_disabled,
    }
}

/// Whether the backward buttons of a display on `page` are disabled.
pub open spec fn cant_left(page: nat) -> bool {
    page < 1
}

/// Whether the forward buttons of a display on `page` of `num_pages` are disabled.
pub open spec fn cant_right(page: nat, num_pages: nat) -> bool {
    page + 1 >= num_pages
}

/// The buttons `<<`, `<`, `>`, `>>` for a display on `page` of `num_pages`:
/// backward ones disabled on the first page, forward ones on the last.
pub fn build_nav_btns(page: usize, num_pages: usize) -> (r: Vec<NavButton>)
    ensures
        r@.len() == 4,
        r@[0].label@ == "<<"@,
        r@[1].label@ == "<"@,
        r@[2].label@ == ">"@,
        r@[3].label@ == ">>"@,
        forall|i: int| 0 <= i < 4 ==> (#[trigger] r@[i]).custom_id@ == r@[i].label@.map_values(
            |c: char| ascii_lower(c),
        ),
        r@[0].disabled == cant_left(page as nat),
        r@[1].disabled == cant_left(page as nat),
        r@[2].disabled == cant_right(page as nat, num_pages as nat),
        r@[3].disabled == cant_right(page as nat, num_pages as nat),
{
    let left = page < 1;
    let right = num_pages == 0 || page >= num_pages - 1;
    let mut r: Vec<NavButton> = Vec::new();
    r.push(build_single_nav_btn("<<", left));
    r.push(build_single_nav_btn("<", left));
    r.push(build_single_nav_btn(">", right));
    r.push(build_single_nav_btn(">>", right));
    r
}

} // verus!

verus! {

/// Opens a display of the queue on its first page: registers it, so that it
/// follows the queue's changes, and gives its buttons.
pub fn queue(state: &mut GuildPlaybackState, message_id: u64, live_len: usize) -> (r: Vec<NavButton>)
    ensures
        final(state).cache.queue_messages@ == old(state).cache.queue_messages@.push(
            QueueDisplay { message_id, page: 0 },
        ),
        final(state).cache.current_skip_votes == old(state).cache.current_skip_votes,
        final(state).settings == old(state).settings,
        final(state).stored_queue == old(state).stored_queue,
        r@.len() == 4,
        r@[0].label@ == "<<"@ && r@[1].label@ == "<"@ && r@[2].label@ == ">"@ && r@[3].label@ == ">>"@,
        forall|i: int| 0 <= i < 4 ==> (#[trigger] r@[i]).custom_id@ == r@[i].label@.map_values(
            |c: char| ascii_lower(c),
        ),
        r@[0].disabled && r@[1].disabled,
        r@[2].disabled == cant_right(0, num_pages(live_len as nat)),
        r@[3].disabled == cant_right(0, num_pages(live_len as nat)),
{
    state.cache.add_queue_message(message_id);
    build_nav_btns(0, calculate_num_pages(live_len))
}

/// Deregisters the message's display: it expired or could not be drawn.
pub fn forget_queue_message(state: &mut GuildPlaybackState, message_id: u64)
    ensures
        final(state).cache.queue_messages@ == old(state).cache.queue_messages@.filter(
            other_message(message_id),
        ),
        final(state).cache.current_skip_votes == old(state).cache.current_skip_votes,
        final(state).settings == old(state).settings,
        final(state).stored_queue == old(state).stored_queue,
{
    state.cache.forget_queue_message(message_id);
}

} // verus!

verus! {

/// First live position listed on `page`: the playing track is not listed.
pub open spec fn page_first(len: nat, page: nat) -> nat {
    let f = EMBED_PAGE_SIZE * page + 1;
    if f < len { f as nat } else { len }
}

/// The position after the last one listed on `page`.
pub open spec fn page_end(len: nat, page: nat) -> nat {
    let e = EMBED_PAGE_SIZE * page + 1 + EMBED_PAGE_SIZE;
    if e < len { e as nat } else { len }
}

/// The live positions `first..end` that `page` of a display lists; each is
/// numbered by its position, and an empty range means no track is up next.
pub fn queue_page_range(len: usize, page: usize) -> (r: (usize, usize))
    ensures
        r.0 == page_first(len as nat, page as nat),
        r.1 == page_end(len as nat, page as nat),
        r.0 <= r.1 <= len,
{
    if page >= len {
        proof {
            assert(EMBED_PAGE_SIZE * page + 1 >= len) by (nonlinear_arith)
                requires page >= len, EMBED_PAGE_SIZE == 6;
            assert(EMBED_PAGE_SIZE * page + 1 + EMBED_PAGE_SIZE >= len) by (nonlinear_arith)
                requires page >= len, EMBED_PAGE_SIZE == 6;
        }
        return (len, len);
    }
    proof {
        assert(EMBED_PAGE_SIZE * page + 1 + EMBED_PAGE_SIZE <= 6 * len + 7) by (nonlinear_arith)
            requires page < len, EMBED_PAGE_SIZE == 6;
    }
    if len > (usize::MAX - 7) / 6 {
        let first_i: u128 = 6 * (page as u128) + 1;
        let end_i: u128 = first_i + 6;
        let first = if first_i < len as u128 { first_i as usize } else { len };
        let end = if end_i < len as u128 { end_i as usize } else { len };
        return (first, end);
    }
    let first = EMBED_PAGE_SIZE * page + 1;
    let end = first + EMBED_PAGE_SIZE;
    (if first < len { first } else { len }, if end < len { end } else { len })
}

} // verus!

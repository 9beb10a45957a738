//! A guild's playback settings, persisted outside this library.

use vstd::prelude::*;
use crate::utils::string_from_chars;

verus! {

/// The domains in order, separated by `;`.
pub open spec fn joined(domains: Seq<Seq<char>>) -> Seq<char>
    decreases domains.len(),
{
    if domains.len() == 0 {
        Seq::empty()
    } else if domains.len() == 1 {
        domains[0]
    } else {
        joined(domains.drop_last()) + seq![';'] + domains.last()
    }
}

/// The domains as one text, separated by `;`, as the settings form shows them.
pub fn join_domains(domains: &Vec<String>) -> (r: String)
    ensures
        r@ == joined(domains@.map_values(|d: String| d@)),
{
    let ghost views = domains@.map_values(|d: String| d@);
    let mut text = String::new();
    let mut i: usize = 0;
    while i < domains.len()
        invariant
            0 <= i <= domains@.len(),
            views == domains@.map_values(|d: String| d@),
            text@ == joined(views.subrange(0, i as int)),
        decreases domains@.len() - i,
    {
        let ghost before = text@;
        if i > 0 {
            text.append(";");
        }
        let ghost mid = text@;
        let d = domains[i].as_str();
        assert(d@ == views[i as int]);
        text.append(d);
        assert(text@ == mid + views[i as int]);
        i += 1;
        proof {
            let prefix = views.subrange(0, i as int);
            assert(prefix.drop_last() =~= views.subrange(0, i - 1));
            assert(prefix.last() == domains@[i - 1]@);
            if i == 1 {
                assert(joined(prefix) == prefix[0]);
                assert(before =~= Seq::<char>::empty());
                assert(text@ =~= joined(prefix));
            } else {
                reveal_strlit(";");
                assert(";"@ =~= seq![';']);
                assert(text@ =~= joined(prefix));
            }
        }
    }
    proof {
        assert(views.subrange(0, i as int) =~= views);
    }
    text
}

/// `s` cut at every `;`, in order; a piece may be empty.
pub open spec fn split_semis(s: Seq<char>) -> Seq<Seq<char>>
    decreases s.len(),
{
    if s.len() == 0 {
        seq![Seq::empty()]
    } else {
        let r = split_semis(s.drop_last());
        if s.last() == ';' {
            r.push(Seq::empty())
        } else {
            r.update(r.len() - 1, r.last().push(s.last()))
        }
    }
}

pub open spec fn non_empty() -> spec_fn(Seq<char>) -> bool {
    |p: Seq<char>| p.len() > 0
}

/// The domains a `;`-separated text names: its pieces that are not empty.
pub open spec fn domains_of(s: Seq<char>) -> Seq<Seq<char>> {
    split_semis(s).filter(non_empty())
}

/// The domains of the text as the settings form submits it.
pub fn split_domains(text: &str) -> (r: Vec<String>)
    ensures
        r@.map_values(|d: String| d@) == domains_of(text@),
{
    let n = text.unicode_len();
    let mut out: Vec<String> = Vec::new();
    let mut cur: Vec<char> = Vec::new();
    let ghost mut done: Seq<Seq<char>> = Seq::empty();
    let mut i: usize = 0;
    proof {
        assert(text@.subrange(0, 0) =~= Seq::<char>::empty());
        assert(done.push(cur@) =~= seq![Seq::<char>::empty()]);
        assert(done.filter(non_empty()) =~= Seq::<Seq<char>>::empty()) by {
            done.lemma_filter_len(non_empty());
        }
        assert(out@.map_values(|d: String| d@) =~= Seq::<Seq<char>>::empty());
    }
    while i < n
        invariant
            n == text@.len(),
            0 <= i <= n,
            split_semis(text@.subrange(0, i as int)) == done.push(cur@),
            out@.map_values(|d: String| d@) == done.filter(non_empty()),
        decreases n - i,
    {
        let c = text.get_char(i);
        let ghost prefix = text@.subrange(0, i + 1);
        proof {
            assert(prefix.drop_last() =~= text@.subrange(0, i as int));
            assert(prefix.last() == c);
            done.lemma_filter_push(cur@, non_empty());
        }
        if c == ';' {
            if cur.len() > 0 {
                let ghost before = out@;
                out.push(string_from_chars(&cur));
                proof {
                    assert(out@.map_values(|d: String| d@) =~= before.map_values(|d: String| d@).push(cur@));
                }
            }
            proof {
                done = done.push(cur@);
            }
            cur = Vec::new();
            proof {
                assert(split_semis(prefix) =~= done.push(cur@));
            }
        } else {
            cur.push(c);
            proof {
                assert(split_semis(prefix) =~= done.push(cur@));
            }
        }
        i += 1;
    }
    proof {
        assert(text@.subrange(0, n as int) =~= text@);
        done.lemma_filter_push(cur@, non_empty());
    }
    if cur.len() > 0 {
        let ghost before = out@;
        out.push(string_from_chars(&cur));
        proof {
            assert(out@.map_values(|d: String| d@) =~= before.map_values(|d: String| d@).push(cur@));
        }
    }
    out
}

#[derive(Debug)]
pub struct GuildSettings {
    pub guild_id: u64,
    /// Pause after every track that ends.
    pub autopause: bool,
    /// Repeat the playing track.
    pub track_loop: bool,
    /// Replay the whole queue once it drains.
    pub queue_loop: bool,
    pub allowed_domains: Vec<String>,
    pub banned_domains: Vec<String>,
}

impl GuildSettings {
    pub fn new(guild_id: u64) -> (r: Self)
        ensures
            r.guild_id == guild_id,
            !r.autopause,
            !r.track_loop,
            !r.queue_loop,
            r.allowed_domains@.len() == 0,
            r.banned_domains@.len() == 0,
    {
        GuildSettings {
            guild_id,
            autopause: false,
            track_loop: false,
            queue_loop: false,
            allowed_domains: Vec::new(),
            banned_domains: Vec::new(),
        }
    }

    /// Sets the allowed domains from the form's `;`-separated text.
    pub fn set_allowed_domains(&mut self, text: &str)
        ensures
            final(self).allowed_domains@.map_values(|d: String| d@) == domains_of(text@),
            final(self).banned_domains == old(self).banned_domains,
            final(self).guild_id == old(self).guild_id,
            final(self).autopause == old(self).autopause,
            final(self).track_loop == old(self).track_loop,
            final(self).queue_loop == old(self).queue_loop,
    {
        self.allowed_domains = split_domains(text);
    }

    /// Sets the banned domains from the form's `;`-separated text.
    pub fn set_banned_domains(&mut self, text: &str)
        ensures
            final(self).banned_domains@.map_values(|d: String| d@) == domains_of(text@),
            final(self).allowed_domains == old(self).allowed_domains,
            final(self).guild_id == old(self).guild_id,
            final(self).autopause == old(self).autopause,
            final(self).track_loop == old(self).track_loop,
            final(self).queue_loop == old(self).queue_loop,
    {
        self.banned_domains = split_domains(text);
    }

    pub fn toggle_autopause(&mut self)
        ensures
            final(self).autopause == !old(self).autopause,
            final(self).track_loop == old(self).track_loop,
            final(self).queue_loop == old(self).queue_loop,
            final(self).guild_id == old(self).guild_id,
            final(self).allowed_domains == old(self).allowed_domains,
            final(self).banned_domains == old(self).banned_domains,
    {
        self.autopause = !self.autopause;
    }

    pub fn toggle_track_loop(&mut self)
        ensures
            final(self).track_loop == !old(self).track_loop,
            final(self).autopause == old(self).autopause,
            final(self).queue_loop == old(self).queue_loop,
            final(self).guild_id == old(self).guild_id,
            final(self).allowed_domains == old(self).allowed_domains,
            final(self).banned_domains == old(self).banned_domains,
    {
        self.track_loop = !self.track_loop;
    }

    pub fn toggle_queue_loop(&mut self)
        ensures
            final(self).queue_loop == !old(self).queue_loop,
            final(self).autopause == old(self).autopause,
            final(self).track_loop == old(self).track_loop,
            final(self).guild_id == old(self).guild_id,
            final(self).allowed_domains == old(self).allowed_domains,
            final(self).banned_domains == old(self).banned_domains,
    {
        self.queue_loop = !self.queue_loop;
    }
}

} // verus!

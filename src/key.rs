//! Storage addresses of cached records. A compound key names a mod of a game
//! and is written `"{domain_name}/{mod_id}"`; all mods of one game then share
//! the prefix `"{domain_name}/"`.
use vstd::prelude::*;

use crate::decimal::{all_digits, decimal, digits_value, lemma_decimal_round_trip, parse_digits};

verus! {

/// The text of a compound key.
pub open spec fn key_text(domain: Seq<char>, id: nat) -> Seq<char> {
    domain + seq!['/'] + decimal(id)
}

/// The prefix shared by the keys of all records of one game.
pub open spec fn game_prefix(domain: Seq<char>) -> Seq<char> {
    domain.push('/')
}

/// Index of the last `/` in `s`, or -1 when there is none.
pub open spec fn last_slash(s: Seq<char>) -> int
    decreases s.len(),
{
    if s.len() == 0 {
        -1
    } else if s.last() == '/' {
        s.len() - 1
    } else {
        last_slash(s.drop_last())
    }
}

/// What a key text reads as: the part before its last `/` and the number after it,
/// when that number is a non-empty run of digits that fits a `u32`.
pub open spec fn parse_key_text(s: Seq<char>) -> Option<(Seq<char>, nat)> {
    let p = last_slash(s);
    let tail = s.subrange(p + 1, s.len() as int);
    if p >= 0 && tail.len() > 0 && all_digits(tail) && digits_value(tail) <= u32::MAX {
        Some((s.subrange(0, p), digits_value(tail)))
    } else {
        None
    }
}

/// A key made of a game's domain name and a mod id.
#[derive(Debug, Clone)]
pub struct CompoundKey {
    pub domain_name: String,
    pub mod_id: u32,
}

impl CompoundKey {
    pub open spec fn view_text(&self) -> Seq<char> {
        key_text(self.domain_name@, self.mod_id as nat)
    }

    pub fn new(domain_name: String, mod_id: u32) -> (r: CompoundKey)
        ensures
            r.domain_name@ == domain_name@,
            r.mod_id == mod_id,
    {
        CompoundKey { domain_name, mod_id }
    }

    /// The storage address `"{domain_name}/{mod_id}"`.
    pub fn to_key_string(&self) -> (r: String)
        ensures
            r@ == self.view_text(),
    {
        compound_key_string(self.domain_name.as_str(), self.mod_id)
    }

    /// Reads a key text back: the part before the last `/` is the domain name and
    /// the digits after it are the mod id.
    pub fn parse(s: &str) -> (r: Option<CompoundKey>)
        ensures
            match parse_key_text(s@) {
                Some((d, id)) => r is Some && r->0.domain_name@ == d && r->0.mod_id as nat == id,
                None => r is None,
            },
    {
        let len = s.unicode_len();
        let mut i: usize = len;
        proof {
            assert(s@.subrange(0, len as int) =~= s@);
        }
        // look for the last slash, scanning backwards
        while i > 0
            invariant
                len == s@.len(),
                i <= len,
                last_slash(s@) == last_slash(s@.subrange(0, i as int)),
            decreases i,
        {
            let c = s.get_char(i - 1);
            proof {
                assert(s@.subrange(0, i as int).drop_last() =~= s@.subrange(0, i - 1));
                assert(s@.subrange(0, i as int).last() == c);
            }
            if c == '/' {
                let domain = s.substring_char(0, i - 1);
                let tail = s.substring_char(i, len);
                proof {
                    assert(last_slash(s@) == i - 1);
                }
                match parse_digits(tail, 4294967295u64) {
                    Some(id) => {
                        return Some(CompoundKey { domain_name: String::from_str(domain), mod_id: id as u32 });
                    },
                    None => {
                        return None;
                    },
                }
            }
            i = i - 1;
        }
        proof {
            assert(s@.subrange(0, 0) =~= Seq::<char>::empty());
        }
        None
    }
}

/// The key text of a mod from its parts.
pub fn compound_key_string(domain: &str, id: u32) -> (r: String)
    ensures
        r@ == key_text(domain@, id as nat),
{
    let mut s = String::from_str(domain);
    s.append("/");
    crate::decimal::push_decimal(&mut s, id as u64);
    proof {
        reveal_strlit("/");
        assert(s@ =~= key_text(domain@, id as nat));
    }
    s
}

/// The prefix `"{domain}/"` under which all mods of a game are stored.
pub fn game_prefix_string(domain: &str) -> (r: String)
    ensures
        r@ == game_prefix(domain@),
{
    let mut s = String::from_str(domain);
    s.append("/");
    proof {
        reveal_strlit("/");
        assert(s@ =~= game_prefix(domain@));
    }
    s
}

/// The web page of a mod on the mod-hosting site.
pub open spec fn mod_page_url(domain: Seq<char>, id: nat) -> Seq<char> {
    "https://www.nexusmods.com/"@ + domain + "/mods/"@ + decimal(id)
}

/// The web page of mod `id` of game `domain`.
pub fn mod_page_url_string(domain: &str, id: u32) -> (r: String)
    ensures
        r@ == mod_page_url(domain@, id as nat),
{
    let mut s = String::from_str("https://www.nexusmods.com/");
    s.append(domain);
    s.append("/mods/");
    crate::decimal::push_decimal(&mut s, id as u64);
    proof {
        assert(s@ =~= mod_page_url(domain@, id as nat));
    }
    s
}

proof fn lemma_decimal_has_no_slash(n: nat)
    ensures
        last_slash(decimal(n)) == -1,
{
    lemma_decimal_round_trip(n);
    lemma_no_slash(decimal(n));
}

proof fn lemma_no_slash(s: Seq<char>)
    requires
        all_digits(s),
    ensures
        last_slash(s) == -1,
    decreases s.len(),
{
    if s.len() > 0 {
        assert(crate::decimal::is_digit(s[s.len() - 1]));
        assert(all_digits(s.drop_last())) by {
            assert forall|i: int| 0 <= i < s.drop_last().len() implies crate::decimal::is_digit(
                #[trigger] s.drop_last()[i],
            ) by {
                assert(s.drop_last()[i] == s[i]);
            }
        }
        lemma_no_slash(s.drop_last());
    }
}

/// A `/` followed by a text without one is the last `/`.
proof fn lemma_last_slash_append(a: Seq<char>, t: Seq<char>)
    requires
        last_slash(t) == -1,
    ensures
        last_slash(a.push('/') + t) == a.len(),
    decreases t.len(),
{
    if t.len() == 0 {
        assert(a.push('/') + t =~= a.push('/'));
    } else {
        assert((a.push('/') + t).drop_last() =~= a.push('/') + t.drop_last());
        assert(t.last() != '/');
        lemma_last_slash_append(a, t.drop_last());
    }
}

/// Writing a compound key as text and reading it back gives the same domain name
/// and mod id, whatever characters the domain name holds.
pub proof fn lemma_key_round_trip(domain: Seq<char>, id: u32)
    ensures
        parse_key_text(key_text(domain, id as nat)) == Some((domain, id as nat)),
{
    let s = key_text(domain, id as nat);
    lemma_decimal_has_no_slash(id as nat);
    lemma_decimal_round_trip(id as nat);
    assert(s =~= domain.push('/') + decimal(id as nat));
    lemma_last_slash_append(domain, decimal(id as nat));
    assert(s.subrange(domain.len() as int + 1, s.len() as int) =~= decimal(id as nat));
    assert(s.subrange(0, domain.len() as int) =~= domain);
}

/// The keys of a game's mods all begin with that game's prefix.
pub proof fn lemma_key_has_game_prefix(domain: Seq<char>, id: u32)
    ensures
        game_prefix(domain).is_prefix_of(key_text(domain, id as nat)),
{
    assert(key_text(domain, id as nat).subrange(0, domain.len() as int + 1) =~= game_prefix(domain));
}

pub open spec fn has_no_slash(s: Seq<char>) -> bool {
    forall|i: int| 0 <= i < s.len() ==> s[i] != '/'
}

/// Where domain names hold no `/`, the keys of one game's mods never begin
/// with another game's prefix.
pub proof fn lemma_other_game_not_prefixed(a: Seq<char>, b: Seq<char>, id: nat)
    requires
        a != b,
        has_no_slash(a),
        has_no_slash(b),
    ensures
        !game_prefix(a).is_prefix_of(key_text(b, id)),
{
    let p = game_prefix(a);
    let k = key_text(b, id);
    if p.is_prefix_of(k) {
        assert(k.subrange(0, p.len() as int) == p);
        if a.len() < b.len() {
            assert(k[a.len() as int] == b[a.len() as int]);
            assert(p[a.len() as int] == '/');
            assert(k.subrange(0, p.len() as int)[a.len() as int] == k[a.len() as int]);
        } else if a.len() > b.len() {
            assert(k[b.len() as int] == '/');
            assert(p[b.len() as int] == a[b.len() as int]);
            assert(k.subrange(0, p.len() as int)[b.len() as int] == k[b.len() as int]);
        } else {
            assert forall|i: int| 0 <= i < a.len() implies a[i] == b[i] by {
                assert(k.subrange(0, p.len() as int)[i] == k[i]);
                assert(p[i] == a[i]);
                assert(k[i] == b[i]);
            }
            assert(a =~= b);
        }
    }
}

} // verus!

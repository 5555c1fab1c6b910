//! The No-Intro index: CRC32 to canonical game name, read from ClrMamePro text
//! (the format the libretro mirror serves; Logiqx XML is deliberately not
//! supported).
use vstd::prelude::*;
use std::collections::HashMap;
use crate::text::{
    char_is_space, chars_of, from_utf8_lossy, hex_u32, is_space, lossy_text, parse_hex_u32,
    same_chars, text_from, trim, trim_front, trimmed,
};

pub mod laws;

verus! {

pub const GBA_DAT_URL: &'static str =
    "https://raw.githubusercontent.com/libretro/libretro-database/master/metadat/no-intro/Nintendo%20-%20Game%20Boy%20Advance.dat";

pub const GBA_DAT_FILENAME: &'static str = "nointro.dat";

// ---------------------------------------------------------------------
// Tokens
// ---------------------------------------------------------------------

/// The length of the text before the first quote.
pub open spec fn quoted_len(s: Seq<char>) -> nat
    decreases s.len(),
{
    if s.len() == 0 || s[0] == '"' {
        0
    } else {
        1 + quoted_len(s.skip(1))
    }
}

/// Whether a character ends a plain word.
pub open spec fn ends_word(c: char) -> bool {
    is_space(c) || c == '(' || c == ')' || c == '"'
}

/// The length of the plain word at the start of a text.
pub open spec fn word_len(s: Seq<char>) -> nat
    decreases s.len(),
{
    if s.len() == 0 || ends_word(s[0]) {
        0
    } else {
        1 + word_len(s.skip(1))
    }
}

/// What is left behind a quoted string of `n` characters and its closing
/// quote, where it has one.
pub open spec fn after_quote(s: Seq<char>, n: int) -> Seq<char> {
    if n < s.len() {
        s.skip(n + 1)
    } else {
        s.skip(s.len() as int)
    }
}

/// The tokens of a text: quoted strings are single tokens, parentheses are
/// their own tokens, everything else splits on white space.
pub open spec fn tokens(s: Seq<char>) -> Seq<Seq<char>>
    decreases s.len(),
{
    if s.len() == 0 {
        Seq::<Seq<char>>::empty()
    } else if s[0] == '"' {
        let rest = s.skip(1);
        let n = quoted_len(rest) as int;
        seq![rest.take(n)] + tokens(after_quote(rest, n))
    } else if s[0] == '(' || s[0] == ')' {
        seq![seq![s[0]]] + tokens(s.skip(1))
    } else if is_space(s[0]) {
        tokens(s.skip(1))
    } else {
        let n = 1 + word_len(s.skip(1)) as int;
        proof {
            lemma_word_len(s.skip(1));
        }
        seq![s.take(n)] + tokens(s.skip(n))
    }
}

pub proof fn lemma_word_len(s: Seq<char>)
    ensures
        word_len(s) <= s.len(),
    decreases s.len(),
{
    if s.len() > 0 && !ends_word(s[0]) {
        lemma_word_len(s.skip(1));
    }
}

/// What a list of tokens says.
pub open spec fn tokens_view(t: Seq<Vec<char>>) -> Seq<Seq<char>> {
    t.map_values(|v: Vec<char>| v@)
}

/// Tokenize ClrMamePro text.
fn clrmamepro_tokens(text: &[char]) -> (t: Vec<Vec<char>>)
    ensures
        tokens_view(t@) == tokens(text@),
{
    let mut out: Vec<Vec<char>> = Vec::new();
    let mut i: usize = 0;
    proof {
        assert(text@.skip(0) =~= text@);
        assert(tokens_view(out@) + tokens(text@) =~= tokens(text@));
    }
    while i < text.len()
        invariant
            i <= text@.len(),
            tokens_view(out@) + tokens(text@.skip(i as int)) == tokens(text@),
        decreases text@.len() - i,
    {
        let ghost here = text@.skip(i as int);
        let ghost before = out@;
        let c: char = text[i];
        if c == '"' {
            let start: usize = i + 1;
            let ghost rest = here.skip(1);
            let mut n: usize = start;
            proof {
                assert(rest =~= text@.skip(start as int));
            }
            while n < text.len() && text[n] != '"'
                invariant
                    start <= n <= text@.len(),
                    rest == text@.skip(start as int),
                    quoted_len(rest) == (n - start) + quoted_len(text@.skip(n as int)),
                decreases text@.len() - n,
            {
                assert(text@.skip(n as int).skip(1) =~= text@.skip(n + 1));
                n = n + 1;
            }
            let word = subrange_vec(text, start, n);
            proof {
                assert(word@ =~= rest.take(n - start));
            }
            out.push(word);
            i = if n < text.len() {
                n + 1
            } else {
                n
            };
            proof {
                assert(after_quote(rest, n - start) =~= text@.skip(i as int));
                lemma_next_token(before, word, tokens(text@.skip(i as int)), here, text@);
            }
        } else if c == '(' || c == ')' {
            let mut word: Vec<char> = Vec::new();
            word.push(c);
            out.push(word);
            i = i + 1;
            proof {
                assert(word@ =~= seq![c]);
                assert(here.skip(1) =~= text@.skip(i as int));
                lemma_next_token(before, word, tokens(text@.skip(i as int)), here, text@);
            }
        } else if char_is_space(c) {
            i = i + 1;
            assert(here.skip(1) =~= text@.skip(i as int));
        } else {
            let ghost rest = here.skip(1);
            let start: usize = i;
            let mut n: usize = i + 1;
            proof {
                assert(rest =~= text@.skip(n as int));
            }
            while n < text.len() && !char_ends_word(text[n])
                invariant
                    start + 1 <= n <= text@.len(),
                    rest == text@.skip(start + 1),
                    word_len(rest) == (n - start - 1) + word_len(text@.skip(n as int)),
                decreases text@.len() - n,
            {
                assert(text@.skip(n as int).skip(1) =~= text@.skip(n + 1));
                n = n + 1;
            }
            let word = subrange_vec(text, start, n);
            proof {
                assert(word@ =~= here.take(n - start));
                assert(here.skip(n - start) =~= text@.skip(n as int));
            }
            out.push(word);
            i = n;
            proof {
                lemma_next_token(before, word, tokens(text@.skip(i as int)), here, text@);
            }
        }
    }
    proof {
        assert(tokens(text@.skip(i as int)) =~= Seq::<Seq<char>>::empty());
        assert(tokens_view(out@) =~= tokens(text@));
    }
    out
}

proof fn lemma_next_token(
    before: Seq<Vec<char>>,
    word: Vec<char>,
    rest: Seq<Seq<char>>,
    here: Seq<char>,
    all: Seq<char>,
)
    requires
        tokens(here) == seq![word@] + rest,
        tokens_view(before) + tokens(here) == tokens(all),
    ensures
        tokens_view(before.push(word)) + rest == tokens(all),
{
    assert(tokens_view(before.push(word)) + rest =~= tokens_view(before) + (seq![word@] + rest));
}

fn subrange_vec(s: &[char], a: usize, b: usize) -> (v: Vec<char>)
    requires
        a <= b <= s@.len(),
    ensures
        v@ == s@.subrange(a as int, b as int),
{
    let mut v: Vec<char> = Vec::new();
    let mut i: usize = a;
    while i < b
        invariant
            a <= i <= b <= s@.len(),
            v@ == s@.subrange(a as int, i as int),
        decreases b - i,
    {
        v.push(s[i]);
        i = i + 1;
        assert(v@ =~= s@.subrange(a as int, i as int));
    }
    v
}

fn char_ends_word(c: char) -> (b: bool)
    ensures
        b == ends_word(c),
{
    char_is_space(c) || c == '(' || c == ')' || c == '"'
}

// ---------------------------------------------------------------------
// Games
// ---------------------------------------------------------------------

/// One game's block, read from token `i` on with `depth` parentheses open: the
/// position behind it, the game's name and its checksums. The name is the one
/// given outside any inner block; checksums stand inside one.
pub open spec fn game_block(
    t: Seq<Seq<char>>,
    i: int,
    depth: nat,
    name: Option<Seq<char>>,
    crcs: Seq<Seq<char>>,
) -> (int, Option<Seq<char>>, Seq<Seq<char>>)
    decreases
            if i < t.len() {
                t.len() - i
            } else {
                0
            },
{
    if i >= t.len() || depth == 0 {
        (i, name, crcs)
    } else if t[i] == "("@ {
        game_block(t, i + 1, depth + 1, name, crcs)
    } else if t[i] == ")"@ {
        game_block(t, i + 1, (depth - 1) as nat, name, crcs)
    } else if t[i] == "name"@ && depth == 1 && name is None && i + 1 < t.len() {
        game_block(t, i + 2, depth, Some(t[i + 1]), crcs)
    } else if (t[i] == "crc"@ || t[i] == "crc32"@) && depth >= 2 && i + 1 < t.len() {
        game_block(t, i + 2, depth, name, crcs.push(t[i + 1]))
    } else {
        game_block(t, i + 1, depth, name, crcs)
    }
}

pub proof fn lemma_block_advances(
    t: Seq<Seq<char>>,
    i: int,
    depth: nat,
    name: Option<Seq<char>>,
    crcs: Seq<Seq<char>>,
)
    ensures
        game_block(t, i, depth, name, crcs).0 >= i,
    decreases
            if i < t.len() {
                t.len() - i
            } else {
                0
            },
{
    if i >= t.len() || depth == 0 {
    } else if t[i] == "("@ {
        lemma_block_advances(t, i + 1, depth + 1, name, crcs);
    } else if t[i] == ")"@ {
        lemma_block_advances(t, i + 1, (depth - 1) as nat, name, crcs);
    } else if t[i] == "name"@ && depth == 1 && name is None && i + 1 < t.len() {
        lemma_block_advances(t, i + 2, depth, Some(t[i + 1]), crcs);
    } else if (t[i] == "crc"@ || t[i] == "crc32"@) && depth >= 2 && i + 1 < t.len() {
        lemma_block_advances(t, i + 2, depth, name, crcs.push(t[i + 1]));
    } else {
        lemma_block_advances(t, i + 1, depth, name, crcs);
    }
}

/// Whether a game's block starts at token `i`.
pub open spec fn game_starts(t: Seq<Seq<char>>, i: int) -> bool {
    (t[i] == "game"@ || t[i] == "machine"@) && i + 1 < t.len() && t[i + 1] == "("@
}

/// The checksums from token `i` on, each with its game's name, in order. A game
/// without a name has none.
pub open spec fn entries(t: Seq<Seq<char>>, i: int) -> Seq<(Seq<char>, Seq<char>)>
    decreases
            if i < t.len() {
                t.len() - i
            } else {
                0
            },
{
    if i >= t.len() {
        Seq::empty()
    } else if game_starts(t, i) {
        let b = game_block(t, i + 2, 1, None, Seq::empty());
        proof {
            lemma_block_advances(t, i + 2, 1, None, Seq::empty());
        }
        named(b.1, b.2) + entries(t, b.0)
    } else {
        entries(t, i + 1)
    }
}

/// Checksums with the name of their game.
pub open spec fn named(name: Option<Seq<char>>, crcs: Seq<Seq<char>>) -> Seq<
    (Seq<char>, Seq<char>),
> {
    match name {
        None => Seq::empty(),
        Some(n) => crcs.map_values(|c: Seq<char>| (c, n)),
    }
}

/// A checksum's digits without the prefix it may carry.
pub open spec fn strip_0x(s: Seq<char>) -> Seq<char>
    decreases s.len(),
{
    if s.len() >= 2 && s[0] == '0' && s[1] == 'x' {
        strip_0x(s.skip(2))
    } else {
        s
    }
}

/// The checksum a token spells.
pub open spec fn crc_of(token: Seq<char>) -> Option<u32> {
    hex_u32(strip_0x(trimmed(token)))
}

/// The index after one more entry: the first name of a checksum stays.
pub open spec fn with_entry(
    names: Map<u32, Seq<char>>,
    entry: (Seq<char>, Seq<char>),
) -> Map<u32, Seq<char>> {
    match crc_of(entry.0) {
        None => names,
        Some(crc) => if names.contains_key(crc) {
            names
        } else {
            names.insert(crc, entry.1)
        },
    }
}

/// The index after a run of entries.
pub open spec fn with_entries(
    names: Map<u32, Seq<char>>,
    es: Seq<(Seq<char>, Seq<char>)>,
) -> Map<u32, Seq<char>>
    decreases es.len(),
{
    if es.len() == 0 {
        names
    } else {
        with_entry(with_entries(names, es.drop_last()), es.last())
    }
}

/// A text without the byte-order marks in front.
pub open spec fn strip_marks(s: Seq<char>) -> Seq<char>
    decreases s.len(),
{
    if s.len() > 0 && s[0] as u32 == 0xfeff {
        strip_marks(s.skip(1))
    } else {
        s
    }
}

/// Whether a text is XML: its first mark after white space is `<`.
pub open spec fn is_xml(s: Seq<char>) -> bool {
    trim_front(s).len() > 0 && trim_front(s)[0] == '<'
}

/// The index after one more text.
pub open spec fn with_text(names: Map<u32, Seq<char>>, text: Seq<char>) -> Map<u32, Seq<char>> {
    let s = strip_marks(text);
    if is_xml(s) {
        names
    } else {
        with_entries(names, entries(tokens(s), 0))
    }
}

/// CRC32 to canonical game name, read from the managed DAT.
#[derive(Debug, Clone)]
pub struct DatIndex {
    by_crc32: HashMap<u32, String>,
}

impl View for DatIndex {
    type V = Map<u32, Seq<char>>;

    closed spec fn view(&self) -> Map<u32, Seq<char>> {
        self.by_crc32@.map_values(|n: String| n@)
    }
}

impl Default for DatIndex {
    fn default() -> (d: DatIndex)
        ensures
            d@ == Map::<u32, Seq<char>>::empty(),
    {
        broadcast use vstd::std_specs::hash::group_hash_axioms;

        let d = DatIndex { by_crc32: HashMap::new() };
        assert(d@ =~= Map::<u32, Seq<char>>::empty());
        d
    }
}

impl DatIndex {
    pub fn lookup(&self, crc32: u32) -> (name: Option<&str>)
        ensures
            match name {
                Some(n) => self@.contains_key(crc32) && n@ == self@[crc32],
                None => !self@.contains_key(crc32),
            },
    {
        broadcast use vstd::std_specs::hash::group_hash_axioms;

        match self.by_crc32.get(&crc32) {
            Some(n) => Some(n.as_str()),
            None => None,
        }
    }

    /// Total names known, for the settings readout.
    pub fn len(&self) -> (n: usize)
        ensures
            n == self@.dom().len(),
            self@.dom().finite(),
    {
        broadcast use vstd::std_specs::hash::group_hash_axioms;

        assert(self@.dom() =~= self.by_crc32@.dom());
        self.by_crc32.len()
    }

    pub fn is_empty(&self) -> (b: bool)
        ensures
            b == (self@.dom().len() == 0),
    {
        self.len() == 0
    }

    fn insert(&mut self, crc: &[char], name: &String)
        ensures
            final(self)@ == with_entry(old(self)@, (crc@, name@)),
    {
        broadcast use vstd::std_specs::hash::group_hash_axioms;

        let t = trim(crc);
        let mut i: usize = 0;
        proof {
            assert(t@.skip(0) =~= t@);
        }
        while i < t.len() && t.len() - i >= 2 && t[i] == '0' && t[i + 1] == 'x'
            invariant
                i <= t@.len(),
                strip_0x(t@.skip(i as int)) == strip_0x(t@),
            decreases t@.len() - i,
        {
            assert(t@.skip(i as int).skip(2) =~= t@.skip(i + 2));
            i = i + 2;
        }
        let digits = vstd::slice::slice_subrange(t, i, t.len());
        assert(digits@ =~= t@.skip(i as int));
        match parse_hex_u32(digits) {
            None => {},
            Some(key) => {
                let ghost before = self.by_crc32@;
                if !self.by_crc32.contains_key(&key) {
                    self.by_crc32.insert(key, name.clone());
                    assert(self@ =~= old(self)@.insert(key, name@));
                }
            },
        }
    }

    /// ClrMamePro text: `game ( name ".." rom ( name ".." crc HHHHHHHH ) )`.
    fn parse_clrmamepro(&mut self, text: &[char])
        ensures
            final(self)@ == with_entries(old(self)@, entries(tokens(text@), 0)),
    {
        let toks = clrmamepro_tokens(text);
        let ghost t = tokens_view(toks@);
        let ghost all = entries(t, 0);
        let ghost mut done = Seq::<(Seq<char>, Seq<char>)>::empty();
        let mut i: usize = 0;
        proof {
            assert(done + all =~= all);
        }
        while i < toks.len()
            invariant
                t == tokens_view(toks@),
                all == entries(t, 0),
                done + entries(t, i as int) == all,
                self@ == with_entries(old(self)@, done),
            decreases
                    if i < toks@.len() {
                        toks@.len() - i
                    } else {
                        0
                    },
        {
            if (is_word(&toks[i], "game") || is_word(&toks[i], "machine")) && toks.len() - i > 1
                && is_word(&toks[i + 1], "(") {
                let ghost whole = game_block(t, i + 2, 1, None, Seq::empty());
                let ghost start = i as int;
                proof {
                    lemma_block_advances(t, i + 2, 1, None, Seq::empty());
                    assert(game_starts(t, start));
                }
                let (end, name, crcs) = read_game(&toks, i + 2);
                i = end;
                let ghost here = named(whole.1, whole.2);
                let ghost rest = entries(t, end as int);
                match name {
                    Some(name) => {
                        let mut k: usize = 0;
                        proof {
                            assert(done + here.take(0) =~= done);
                        }
                        while k < crcs.len()
                            invariant
                                k <= crcs@.len(),
                                tokens_view(crcs@) == whole.2,
                                whole.1 == Some(name@),
                                here == named(whole.1, whole.2),
                                self@ == with_entries(old(self)@, done + here.take(k as int)),
                            decreases crcs@.len() - k,
                        {
                            self.insert(crcs[k].as_slice(), &name);
                            proof {
                                let upto = done + here.take(k + 1);
                                assert(upto.drop_last() =~= done + here.take(k as int));
                                assert(upto.last() == (crcs@[k as int]@, name@));
                            }
                            k = k + 1;
                        }
                        assert(here.take(k as int) =~= here);
                    },
                    None => {
                        assert(done + here =~= done);
                    },
                }
                proof {
                    assert((done + here) + rest =~= done + (here + rest));
                    done = done + here;
                }
            } else {
                i = i + 1;
            }
        }
        proof {
            assert(done =~= all);
        }
    }

    /// Read one DAT's text into the index (ClrMamePro only).
    pub fn add_text(&mut self, text: &str)
        ensures
            final(self)@ == with_text(old(self)@, text@),
    {
        let chars = chars_of(text);
        let mut a: usize = 0;
        proof {
            assert(chars@.skip(0) =~= chars@);
        }
        while a < chars.len() && chars[a] as u32 == 0xfeff
            invariant
                a <= chars@.len(),
                strip_marks(chars@.skip(a as int)) == strip_marks(chars@),
            decreases chars@.len() - a,
        {
            assert(chars@.skip(a as int).skip(1) =~= chars@.skip(a + 1));
            a = a + 1;
        }
        let s = vstd::slice::slice_subrange(chars.as_slice(), a, chars.len());
        proof {
            assert(s@ =~= chars@.skip(a as int));
        }
        let mut b: usize = 0;
        proof {
            assert(s@.skip(0) =~= s@);
        }
        while b < s.len() && char_is_space(s[b])
            invariant
                b <= s@.len(),
                trim_front(s@.skip(b as int)) == trim_front(s@),
            decreases s@.len() - b,
        {
            assert(s@.skip(b as int).skip(1) =~= s@.skip(b + 1));
            b = b + 1;
        }
        if b < s.len() && s[b] == '<' {
            assert(s@.skip(b as int)[0] == '<');
            return;
        }
        self.parse_clrmamepro(s);
    }
}

fn is_word(token: &Vec<char>, word: &str) -> (b: bool)
    ensures
        b == (token@ == word@),
{
    let w = chars_of(word);
    same_chars(token.as_slice(), w.as_slice())
}

/// Read one game's block whose opening parenthesis is behind.
fn read_game(toks: &Vec<Vec<char>>, from: usize) -> (r: (usize, Option<String>, Vec<Vec<char>>))
    requires
        1 <= from <= toks@.len(),
    ensures
        ({
            let b = game_block(tokens_view(toks@), from as int, 1, None, Seq::empty());
            &&& r.0 == b.0
            &&& match r.1 {
                Some(n) => b.1 == Some(n@),
                None => b.1 is None,
            }
            &&& tokens_view(r.2@) == b.2
        }),
{
    let ghost t = tokens_view(toks@);
    let n: usize = toks.len();
    let mut i: usize = from;
    let mut depth: usize = 1;
    let mut name: Option<String> = None;
    let mut crcs: Vec<Vec<char>> = Vec::new();
    let ghost whole = game_block(t, from as int, 1, None, Seq::empty());
    let ghost mut nv: Option<Seq<char>> = None;
    proof {
        assert(tokens_view(crcs@) =~= Seq::empty());
    }
    while i < n && depth > 0
        invariant
            n == toks@.len(),
            t == tokens_view(toks@),
            i <= n,
            depth <= i,
            match name {
                Some(s) => nv == Some(s@),
                None => nv is None,
            },
            game_block(t, i as int, depth as nat, nv, tokens_view(crcs@)) == whole,
        decreases
                if i < n {
                    n - i
                } else {
                    0
                },
    {
        let tok = &toks[i];
        assert(t[i as int] == tok@);
        if is_word(tok, "(") {
            depth = depth + 1;
            i = i + 1;
        } else if is_word(tok, ")") {
            depth = depth - 1;
            i = i + 1;
        } else if depth == 1 && name.is_none() && is_word(tok, "name") && i + 1 < n {
            let s = text_from(toks[i + 1].as_slice());
            proof {
                nv = Some(s@);
            }
            name = Some(s);
            i = i + 2;
        } else if depth >= 2 && (is_word(tok, "crc") || is_word(tok, "crc32")) && i + 1 < n {
            let ghost before = crcs@;
            let v = subrange_vec(toks[i + 1].as_slice(), 0, toks[i + 1].len());
            crcs.push(v);
            proof {
                assert(v@ =~= t[i + 1]);
                assert(tokens_view(crcs@) =~= tokens_view(before).push(t[i + 1]));
            }
            i = i + 2;
        } else {
            i = i + 1;
        }
    }
    (i, name, crcs)
}

/// Reading a text keeps every name the index had: the first one stays.
pub proof fn law_known_names_stay(names: Map<u32, Seq<char>>, text: Seq<char>, crc: u32)
    requires
        names.contains_key(crc),
    ensures
        with_text(names, text).contains_key(crc),
        with_text(names, text)[crc] == names[crc],
{
    lemma_entries_keep(names, entries(tokens(strip_marks(text)), 0), crc);
}

proof fn lemma_entries_keep(
    names: Map<u32, Seq<char>>,
    es: Seq<(Seq<char>, Seq<char>)>,
    crc: u32,
)
    requires
        names.contains_key(crc),
    ensures
        with_entries(names, es).contains_key(crc),
        with_entries(names, es)[crc] == names[crc],
    decreases es.len(),
{
    if es.len() > 0 {
        lemma_entries_keep(names, es.drop_last(), crc);
    }
}

proof fn lemma_entries_are_known(
    names: Map<u32, Seq<char>>,
    es: Seq<(Seq<char>, Seq<char>)>,
    i: int,
)
    requires
        0 <= i < es.len(),
    ensures
        crc_of(es[i].0) matches Some(crc) ==> with_entries(names, es).contains_key(crc),
    decreases es.len(),
{
    if i < es.len() - 1 {
        lemma_entries_are_known(names, es.drop_last(), i);
    }
}

proof fn lemma_known_entries_change_nothing(
    names: Map<u32, Seq<char>>,
    es: Seq<(Seq<char>, Seq<char>)>,
)
    requires
        forall|i: int|
            0 <= i < es.len() ==> (crc_of((#[trigger] es[i]).0) matches Some(crc)
                ==> names.contains_key(crc)),
    ensures
        with_entries(names, es) == names,
    decreases es.len(),
{
    if es.len() > 0 {
        let rest = es.drop_last();
        assert forall|i: int| 0 <= i < rest.len() implies (crc_of((#[trigger] rest[i]).0) matches Some(
            crc,
        ) ==> names.contains_key(crc)) by {
            assert(es[i] == rest[i]);
        }
        lemma_known_entries_change_nothing(names, rest);
        assert(es[es.len() - 1] == es.last());
    }
}

/// Reading the same text again changes nothing.
pub proof fn law_reading_again_changes_nothing(names: Map<u32, Seq<char>>, text: Seq<char>)
    ensures
        with_text(with_text(names, text), text) == with_text(names, text),
{
    let es = entries(tokens(strip_marks(text)), 0);
    let known = with_entries(names, es);
    assert forall|i: int| 0 <= i < es.len() implies (crc_of((#[trigger] es[i]).0) matches Some(crc)
        ==> known.contains_key(crc)) by {
        lemma_entries_are_known(names, es, i);
    }
    lemma_known_entries_change_nothing(known, es);
}

proof fn lemma_entries_never_drop(
    names: Map<u32, Seq<char>>,
    es: Seq<(Seq<char>, Seq<char>)>,
)
    requires
        names.dom().finite(),
    ensures
        with_entries(names, es).dom().finite(),
        with_entries(names, es).dom().len() >= names.dom().len(),
    decreases es.len(),
{
    if es.len() > 0 {
        lemma_entries_never_drop(names, es.drop_last());
        let rest = with_entries(names, es.drop_last());
        match crc_of(es.last().0) {
            Some(crc) => {
                assert(rest.insert(crc, es.last().1).dom() =~= rest.dom().insert(crc));
            },
            None => {},
        }
    }
}

/// The number of names never drops, whatever is read.
pub proof fn law_names_never_drop(names: Map<u32, Seq<char>>, text: Seq<char>)
    requires
        names.dom().finite(),
    ensures
        with_text(names, text).dom().finite(),
        with_text(names, text).dom().len() >= names.dom().len(),
{
    lemma_entries_never_drop(names, entries(tokens(strip_marks(text)), 0));
}

/// Of several names for one checksum in a text, the first is taken where the
/// index knows none.
pub proof fn law_the_first_name_wins(names: Map<u32, Seq<char>>, text: Seq<char>, crc: u32, i: int)
    requires
        !is_xml(strip_marks(text)),
        !names.contains_key(crc),
        ({
            let es = entries(tokens(strip_marks(text)), 0);
            &&& 0 <= i < es.len()
            &&& crc_of(es[i].0) == Some(crc)
            &&& forall|k: int| 0 <= k < i ==> crc_of((#[trigger] es[k]).0) != Some(crc)
        }),
    ensures
        with_text(names, text).contains_key(crc),
        with_text(names, text)[crc] == entries(tokens(strip_marks(text)), 0)[i].1,
{
    lemma_first_entry_wins(names, entries(tokens(strip_marks(text)), 0), crc, i);
}

proof fn lemma_first_entry_wins(
    names: Map<u32, Seq<char>>,
    es: Seq<(Seq<char>, Seq<char>)>,
    crc: u32,
    i: int,
)
    requires
        !names.contains_key(crc),
        0 <= i <= es.len(),
        i < es.len() ==> crc_of(es[i].0) == Some(crc),
        forall|k: int| 0 <= k < i ==> crc_of((#[trigger] es[k]).0) != Some(crc),
    ensures
        i < es.len() ==> with_entries(names, es).contains_key(crc) && with_entries(names, es)[crc]
            == es[i].1,
        i == es.len() ==> !with_entries(names, es).contains_key(crc),
    decreases es.len(),
{
    if es.len() > 0 {
        let rest = es.drop_last();
        if i < es.len() {
            assert(i < rest.len() ==> rest[i] == es[i]);
            lemma_first_entry_wins(names, rest, crc, i);
        } else {
            lemma_first_entry_wins(names, rest, crc, i - 1);
            assert(crc_of(es[i - 1].0) != Some(crc));
        }
    }
}

/// XML changes nothing.
pub proof fn law_xml_is_rejected(names: Map<u32, Seq<char>>, text: Seq<char>)
    requires
        is_xml(strip_marks(text)),
    ensures
        with_text(names, text) == names,
{
}

// ---------------------------------------------------------------------
// Where the index comes from
// ---------------------------------------------------------------------

/// What reading the stored DAT came to.
#[derive(Debug)]
pub enum Stored {
    Found(Vec<u8>),
    Missing,
    Unreadable,
}

/// The names of one text alone.
pub open spec fn names_in(text: Seq<char>) -> Map<u32, Seq<char>> {
    with_text(Map::empty(), text)
}

/// Load the DAT: the stored copy where there is one, else the bundled snapshot,
/// if that could be had.
pub fn load(stored: &Stored, bundled: Option<&str>) -> (index: DatIndex)
    ensures
        index@ == (match *stored {
            Stored::Found(bytes) => names_in(lossy_text(bytes@)),
            Stored::Missing => match bundled {
                Some(text) => names_in(text@),
                None => Map::empty(),
            },
            Stored::Unreadable => Map::empty(),
        }),
{
    let mut index = DatIndex::default();
    match stored {
        Stored::Found(bytes) => {
            let text = from_utf8_lossy(bytes.as_slice());
            index.add_text(text.as_str());
        },
        Stored::Missing => match bundled {
            Some(text) => {
                index.add_text(text);
            },
            None => {},
        },
        Stored::Unreadable => {},
    }
    index
}

/// How many names a downloaded DAT has; `None` where it has none, and must not
/// replace a good copy.
pub fn check_download(text: &str) -> (n: Option<usize>)
    ensures
        match n {
            Some(n) => n > 0 && n == names_in(text@).dom().len(),
            None => names_in(text@).dom().len() == 0,
        },
{
    let mut index = DatIndex::default();
    index.add_text(text);
    if index.is_empty() {
        None
    } else {
        Some(index.len())
    }
}

} // verus!

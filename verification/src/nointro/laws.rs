//! What holds of the index, said of the text it is read from.
use vstd::prelude::*;
use crate::nointro::{
    after_quote, crc_of, ends_word, entries, game_block, game_starts, is_xml, lemma_word_len, named,
    quoted_len, strip_0x, strip_marks, tokens, with_entries, with_entry, with_text, word_len,
};
use crate::text::laws::{
    law_hex_is_read_in_either_case, law_trimming_takes_the_space_around, lower_digits, spells_hex,
    upper_digits,
};
use crate::text::{is_space, trim_front};

verus! {

// ---------------------------------------------------------------------
// Tokens
// ---------------------------------------------------------------------

/// Whether characters are white space, and there are some.
pub open spec fn is_gap(gap: Seq<char>) -> bool {
    gap.len() > 0 && forall|i: int| 0 <= i < gap.len() ==> is_space(#[trigger] gap[i])
}

/// Whether characters make up a plain word.
pub open spec fn is_plain(w: Seq<char>) -> bool {
    w.len() > 0 && forall|i: int|
        0 <= i < w.len() ==> !is_space(#[trigger] w[i]) && w[i] != '(' && w[i] != ')' && w[i] != '"'
}

/// White space is no token and separates nothing by itself.
pub proof fn law_space_is_no_token(gap: Seq<char>, rest: Seq<char>)
    requires
        forall|i: int| 0 <= i < gap.len() ==> is_space(#[trigger] gap[i]),
    ensures
        tokens(gap + rest) == tokens(rest),
    decreases gap.len(),
{
    if gap.len() > 0 {
        let s = gap + rest;
        assert(is_space(gap[0]));
        assert(s[0] == gap[0]);
        assert(s.skip(1) =~= gap.skip(1) + rest);
        let g = gap.skip(1);
        assert forall|i: int| 0 <= i < g.len() implies is_space(#[trigger] g[i]) by {
            assert(is_space(gap[i + 1]));
        }
        law_space_is_no_token(g, rest);
    } else {
        assert(gap + rest =~= rest);
    }
}

/// A parenthesis is a token of its own, whatever it touches.
pub proof fn law_parentheses_are_tokens(c: char, rest: Seq<char>)
    requires
        c == '(' || c == ')',
    ensures
        tokens(seq![c] + rest) == seq![seq![c]] + tokens(rest),
{
    let s = seq![c] + rest;
    assert(s[0] == c);
    assert(s.skip(1) =~= rest);
}

/// What stands between quotes is one token, white space and parentheses
/// included, without the quotes.
pub proof fn law_quoted_text_is_one_token(q: Seq<char>, rest: Seq<char>)
    requires
        !q.contains('"'),
    ensures
        tokens(seq!['"'] + q + seq!['"'] + rest) == seq![q] + tokens(rest),
{
    let s = seq!['"'] + q + seq!['"'] + rest;
    let inner = q + (seq!['"'] + rest);
    assert(s[0] == '"');
    assert(s.skip(1) =~= inner);
    lemma_quoted_len(q, seq!['"'] + rest);
    let n = q.len() as int;
    assert(inner.take(n) =~= q);
    assert(after_quote(inner, n) =~= rest);
}

proof fn lemma_quoted_len(q: Seq<char>, rest: Seq<char>)
    requires
        !q.contains('"'),
        rest.len() > 0,
        rest[0] == '"',
    ensures
        quoted_len(q + rest) == q.len(),
    decreases q.len(),
{
    let s = q + rest;
    if q.len() > 0 {
        assert(q[0] != '"') by {
            assert(q.contains(q[0]));
        }
        assert(s[0] == q[0]);
        assert(s.skip(1) =~= q.skip(1) + rest);
        let t = q.skip(1);
        assert(!t.contains('"')) by {
            if t.contains('"') {
                let i = choose|i: int| 0 <= i < t.len() && t[i] == '"';
                assert(q[i + 1] == '"');
            }
        }
        lemma_quoted_len(t, rest);
    } else {
        assert(s[0] == rest[0]);
    }
}

/// A plain word is one token, up to white space, a parenthesis, a quote or the
/// end.
pub proof fn law_plain_words_are_tokens(w: Seq<char>, rest: Seq<char>)
    requires
        is_plain(w),
        rest.len() == 0 || is_space(rest[0]) || rest[0] == '(' || rest[0] == ')' || rest[0] == '"',
    ensures
        tokens(w + rest) == seq![w] + tokens(rest),
{
    let s = w + rest;
    assert(s[0] == w[0]);
    assert(s.skip(1) =~= w.skip(1) + rest);
    let tail = w.skip(1);
    assert forall|i: int| 0 <= i < tail.len() implies !ends_word(#[trigger] tail[i]) by {
        assert(tail[i] == w[i + 1]);
    }
    lemma_word_len_is(tail, rest);
    assert(s.take(w.len() as int) =~= w);
    assert(s.skip(w.len() as int) =~= rest);
    lemma_word_len(s.skip(1));
}

proof fn lemma_word_len_is(w: Seq<char>, rest: Seq<char>)
    requires
        forall|i: int| 0 <= i < w.len() ==> !ends_word(#[trigger] w[i]),
        rest.len() == 0 || ends_word(rest[0]),
    ensures
        word_len(w + rest) == w.len(),
    decreases w.len(),
{
    let s = w + rest;
    if w.len() > 0 {
        assert(!ends_word(w[0]));
        assert(s[0] == w[0]);
        assert(s.skip(1) =~= w.skip(1) + rest);
        let t = w.skip(1);
        assert forall|i: int| 0 <= i < t.len() implies !ends_word(#[trigger] t[i]) by {
            assert(!ends_word(w[i + 1]));
        }
        lemma_word_len_is(t, rest);
    } else {
        assert(s =~= rest);
    }
}

// ---------------------------------------------------------------------
// Games
// ---------------------------------------------------------------------

/// A word, or a parenthesis, and white space behind it.
pub open spec fn word_and(w: Seq<char>, gap: Seq<char>, rest: Seq<char>) -> Seq<char> {
    w + (gap + rest)
}

/// A quoted text, and white space behind it.
pub open spec fn in_quotes(q: Seq<char>, gap: Seq<char>, rest: Seq<char>) -> Seq<char> {
    seq!['"'] + q + seq!['"'] + (gap + rest)
}

/// The text of one game in ClrMamePro form, with more text behind it:
/// `game ( name "NAME" rom ( name "FILE" crc CRC ) )`. What the game and its
/// checksum are introduced by are arguments too.
pub open spec fn game_text(
    head: Seq<char>,
    name: Seq<char>,
    file: Seq<char>,
    key: Seq<char>,
    crc: Seq<char>,
    gap: Seq<char>,
    rest: Seq<char>,
) -> Seq<char> {
    word_and(
        head,
        gap,
        word_and(
            "("@,
            gap,
            word_and(
                "name"@,
                gap,
                in_quotes(
                    name,
                    gap,
                    word_and(
                        "rom"@,
                        gap,
                        word_and(
                            "("@,
                            gap,
                            word_and(
                                "name"@,
                                gap,
                                in_quotes(
                                    file,
                                    gap,
                                    word_and(
                                        key,
                                        gap,
                                        word_and(
                                            crc,
                                            gap,
                                            word_and(")"@, gap, word_and(")"@, gap, rest)),
                                        ),
                                    ),
                                ),
                            ),
                        ),
                    ),
                ),
            ),
        ),
    )
}

/// The tokens of such a text.
pub open spec fn game_tokens(
    head: Seq<char>,
    name: Seq<char>,
    file: Seq<char>,
    key: Seq<char>,
    crc: Seq<char>,
) -> Seq<Seq<char>> {
    seq![head, "("@, "name"@, name, "rom"@, "("@, "name"@, file, key, crc, ")"@, ")"@]
}

/// Whether the parts of a game's text are such as a DAT has: what it and its
/// checksum are introduced by, texts that hold no quote, and a file name that
/// is no bracket and does not look like a checksum's introduction.
pub open spec fn is_game(
    head: Seq<char>,
    name: Seq<char>,
    file: Seq<char>,
    key: Seq<char>,
    crc: Seq<char>,
    gap: Seq<char>,
) -> bool {
    &&& head == "game"@ || head == "machine"@
    &&& key == "crc"@ || key == "crc32"@
    &&& !name.contains('"')
    &&& !file.contains('"')
    &&& file != "("@ && file != ")"@ && file != "crc"@ && file != "crc32"@
    &&& is_plain(crc)
    &&& is_gap(gap)
}

proof fn lemma_words()
    ensures
        is_plain("game"@),
        is_plain("machine"@),
        is_plain("name"@),
        is_plain("rom"@),
        is_plain("crc"@),
        is_plain("crc32"@),
        "("@ == seq!['('],
        ")"@ == seq![')'],
        "game"@ != "("@ && "machine"@ != "("@,
        "game"@[0] == 'g',
        "machine"@[0] == 'm',
        "name"@ != "("@ && "name"@ != ")"@ && "name"@ != "crc"@ && "name"@ != "crc32"@,
        "rom"@ != "("@ && "rom"@ != ")"@ && "rom"@ != "crc"@ && "rom"@ != "crc32"@ && "rom"@
            != "name"@,
        "crc"@ != "("@ && "crc"@ != ")"@ && "crc"@ != "name"@,
        "crc32"@ != "("@ && "crc32"@ != ")"@ && "crc32"@ != "name"@,
        "("@ != ")"@,
{
    reveal_strlit("game");
    reveal_strlit("machine");
    reveal_strlit("name");
    reveal_strlit("rom");
    reveal_strlit("crc");
    reveal_strlit("crc32");
    reveal_strlit("(");
    reveal_strlit(")");
    assert("("@ =~= seq!['(']);
    assert(")"@ =~= seq![')']);
    assert("game"@[0] == 'g');
    assert("machine"@[0] == 'm');
    assert("name"@[0] == 'n');
    assert("rom"@[0] == 'r');
    assert("crc"@[0] == 'c');
    assert("crc32"@[0] == 'c');
    assert("("@[0] == '(');
    assert(")"@[0] == ')');
}

proof fn lemma_then(w: Seq<char>, gap: Seq<char>, rest: Seq<char>)
    requires
        is_plain(w) || w == seq!['('] || w == seq![')'],
        is_gap(gap),
    ensures
        tokens(word_and(w, gap, rest)) == seq![w] + tokens(rest),
{
    law_space_is_no_token(gap, rest);
    assert(is_space(gap[0]));
    assert((gap + rest)[0] == gap[0]);
    if is_plain(w) {
        law_plain_words_are_tokens(w, gap + rest);
    } else {
        law_parentheses_are_tokens(w[0], gap + rest);
    }
}

proof fn lemma_in_quotes(q: Seq<char>, gap: Seq<char>, rest: Seq<char>)
    requires
        !q.contains('"'),
        is_gap(gap),
    ensures
        tokens(in_quotes(q, gap, rest)) == seq![q] + tokens(rest),
{
    law_space_is_no_token(gap, rest);
    law_quoted_text_is_one_token(q, gap + rest);
}

proof fn lemma_game_tokens(
    head: Seq<char>,
    name: Seq<char>,
    file: Seq<char>,
    key: Seq<char>,
    crc: Seq<char>,
    gap: Seq<char>,
    rest: Seq<char>,
)
    requires
        is_game(head, name, file, key, crc, gap),
    ensures
        tokens(game_text(head, name, file, key, crc, gap, rest)) == game_tokens(
            head,
            name,
            file,
            key,
            crc,
        ) + tokens(rest),
{
    lemma_words();
    let t12 = word_and(")"@, gap, rest);
    let t11 = word_and(")"@, gap, t12);
    let t10 = word_and(crc, gap, t11);
    let t9 = word_and(key, gap, t10);
    let t8 = in_quotes(file, gap, t9);
    let t7 = word_and("name"@, gap, t8);
    let t6 = word_and("("@, gap, t7);
    let t5 = word_and("rom"@, gap, t6);
    let t4 = in_quotes(name, gap, t5);
    let t3 = word_and("name"@, gap, t4);
    let t2 = word_and("("@, gap, t3);
    let t1 = word_and(head, gap, t2);
    lemma_then(")"@, gap, rest);
    lemma_then(")"@, gap, t12);
    lemma_then(crc, gap, t11);
    lemma_then(key, gap, t10);
    lemma_in_quotes(file, gap, t9);
    lemma_then("name"@, gap, t8);
    lemma_then("("@, gap, t7);
    lemma_then("rom"@, gap, t6);
    lemma_in_quotes(name, gap, t5);
    lemma_then("name"@, gap, t4);
    lemma_then("("@, gap, t3);
    lemma_then(head, gap, t2);
    assert(t1 == game_text(head, name, file, key, crc, gap, rest));
    assert(tokens(t1) =~= game_tokens(head, name, file, key, crc) + tokens(rest));
}

proof fn lemma_block_shift(
    pre: Seq<Seq<char>>,
    t: Seq<Seq<char>>,
    i: int,
    depth: nat,
    name: Option<Seq<char>>,
    crcs: Seq<Seq<char>>,
)
    requires
        0 <= i,
    ensures
        ({
            let a = game_block(pre + t, pre.len() + i, depth, name, crcs);
            let b = game_block(t, i, depth, name, crcs);
            a.0 == pre.len() + b.0 && a.1 == b.1 && a.2 == b.2
        }),
    decreases
            if i < t.len() {
                t.len() - i
            } else {
                0
            },
{
    let all = pre + t;
    if i < t.len() && depth > 0 {
        assert(all[pre.len() + i] == t[i]);
        if i + 1 < t.len() {
            assert(all[pre.len() + i + 1] == t[i + 1]);
        }
        if t[i] == "("@ {
            lemma_block_shift(pre, t, i + 1, depth + 1, name, crcs);
        } else if t[i] == ")"@ {
            lemma_block_shift(pre, t, i + 1, (depth - 1) as nat, name, crcs);
        } else if t[i] == "name"@ && depth == 1 && name is None && i + 1 < t.len() {
            lemma_block_shift(pre, t, i + 2, depth, Some(t[i + 1]), crcs);
        } else if (t[i] == "crc"@ || t[i] == "crc32"@) && depth >= 2 && i + 1 < t.len() {
            lemma_block_shift(pre, t, i + 2, depth, name, crcs.push(t[i + 1]));
        } else {
            lemma_block_shift(pre, t, i + 1, depth, name, crcs);
        }
    }
}

proof fn lemma_entries_shift(pre: Seq<Seq<char>>, t: Seq<Seq<char>>, i: int)
    requires
        0 <= i,
    ensures
        entries(pre + t, pre.len() + i) == entries(t, i),
    decreases
            if i < t.len() {
                t.len() - i
            } else {
                0
            },
{
    let all = pre + t;
    if i < t.len() {
        assert(all[pre.len() + i] == t[i]);
        if i + 1 < t.len() {
            assert(all[pre.len() + i + 1] == t[i + 1]);
        }
        assert(game_starts(all, pre.len() + i) == game_starts(t, i));
        if game_starts(t, i) {
            lemma_block_shift(pre, t, i + 2, 1, None, Seq::empty());
            crate::nointro::lemma_block_advances(t, i + 2, 1, None, Seq::empty());
            let b = game_block(t, i + 2, 1, None, Seq::empty());
            lemma_entries_shift(pre, t, b.0);
        } else {
            lemma_entries_shift(pre, t, i + 1);
        }
    }
}

proof fn lemma_one_game(
    head: Seq<char>,
    name: Seq<char>,
    file: Seq<char>,
    key: Seq<char>,
    crc: Seq<char>,
    gap: Seq<char>,
    more: Seq<Seq<char>>,
)
    requires
        is_game(head, name, file, key, crc, gap),
    ensures
        entries(game_tokens(head, name, file, key, crc) + more, 0) == seq![(crc, name)] + entries(
            more,
            0,
        ),
{
    lemma_words();
    let pre = game_tokens(head, name, file, key, crc);
    let t = pre + more;
    let none = Seq::<Seq<char>>::empty();
    assert(t[0] == head && t[1] == "("@ && t[2] == "name"@ && t[3] == name && t[4] == "rom"@ && t[5]
        == "("@ && t[6] == "name"@ && t[7] == file && t[8] == key && t[9] == crc && t[10] == ")"@
        && t[11] == ")"@);
    assert(game_starts(t, 0));
    let one = none.push(crc);
    assert(game_block(t, 12, 0, Some(name), one) == (12int, Some(name), one));
    assert(game_block(t, 11, 1, Some(name), one) == (12int, Some(name), one));
    assert(game_block(t, 10, 2, Some(name), one) == (12int, Some(name), one));
    assert(game_block(t, 8, 2, Some(name), none) == (12int, Some(name), one));
    assert(game_block(t, 7, 2, Some(name), none) == (12int, Some(name), one));
    assert(game_block(t, 6, 2, Some(name), none) == (12int, Some(name), one));
    assert(game_block(t, 5, 1, Some(name), none) == (12int, Some(name), one));
    assert(game_block(t, 4, 1, Some(name), none) == (12int, Some(name), one));
    assert(game_block(t, 2, 1, None, none) == (12int, Some(name), one));
    assert(named(Some(name), one) =~= seq![(crc, name)]);
    lemma_entries_shift(pre, more, 0);
    assert(entries(t, 12) == entries(more, 0));
}

proof fn lemma_first_entry_first(
    names: Map<u32, Seq<char>>,
    e: (Seq<char>, Seq<char>),
    es: Seq<(Seq<char>, Seq<char>)>,
)
    ensures
        with_entries(names, seq![e] + es) == with_entries(with_entry(names, e), es),
    decreases es.len(),
{
    let all = seq![e] + es;
    if es.len() > 0 {
        assert(all.drop_last() =~= seq![e] + es.drop_last());
        assert(all.last() == es.last());
        lemma_first_entry_first(names, e, es.drop_last());
    } else {
        assert(all =~= seq![e]);
        assert(all.drop_last() =~= Seq::<(Seq<char>, Seq<char>)>::empty());
        assert(with_entries(names, all.drop_last()) == names);
    }
}

/// Whether text can be read on from: nothing, or neither a byte-order mark nor
/// XML.
pub open spec fn reads_on(rest: Seq<char>) -> bool {
    (rest.len() > 0 ==> rest[0] as u32 != 0xfeff) && !is_xml(rest)
}

/// A game whose checksum is spelled in hexadecimal is known by its name from
/// then on, in upper and in lower case alike, unless the checksum was known
/// before; the rest of the text is read as it would be alone. Whatever white
/// space separates the parts, and whether the game is introduced as a game or a
/// machine and its checksum as `crc` or `crc32`.
pub proof fn law_a_game_is_known_by_its_checksum(
    names: Map<u32, Seq<char>>,
    head: Seq<char>,
    name: Seq<char>,
    file: Seq<char>,
    key: Seq<char>,
    crc: Seq<char>,
    v: u32,
    gap: Seq<char>,
    rest: Seq<char>,
)
    requires
        is_game(head, name, file, key, crc, gap),
        spells_hex(crc, v as nat),
        reads_on(rest),
    ensures
        with_text(names, game_text(head, name, file, key, crc, gap, rest)) == with_text(
            if names.contains_key(v) {
                names
            } else {
                names.insert(v, name)
            },
            rest,
        ),
        !names.contains_key(v) ==> {
            let known = with_text(names, game_text(head, name, file, key, crc, gap, rest));
            known.contains_key(v) && known[v] == name
        },
{
    let text = game_text(head, name, file, key, crc, gap, rest);
    lemma_words();
    assert(text[0] == head[0]);
    assert(strip_marks(text) == text);
    assert(!is_space(text[0]));
    assert(trim_front(text) == text);
    assert(!is_xml(text));
    lemma_game_tokens(head, name, file, key, crc, gap, rest);
    lemma_one_game(head, name, file, key, crc, gap, tokens(rest));
    let e = (crc, name);
    lemma_first_entry_first(names, e, entries(tokens(rest), 0));
    law_checksums_are_read(crc, v);
    assert(strip_marks(rest) == rest);
    let after = with_entry(names, e);
    assert(with_text(names, text) == with_text(after, rest));
    if !names.contains_key(v) {
        crate::nointro::law_known_names_stay(after, rest, v);
    }
}

/// A checksum's digits are read in either case, with white space around them
/// and a `0x` in front or not.
pub proof fn law_checksums_are_read(digits: Seq<char>, v: u32)
    requires
        digits.len() > 0,
        spells_hex(digits, v as nat),
    ensures
        crc_of(digits) == Some(v),
        crc_of(seq!['0', 'x'] + digits) == Some(v),
        crc_of(seq![' '] + digits + seq![' ']) == Some(v),
{
    lemma_digits_are_plain(digits, v as nat);
    let none = Seq::<char>::empty();
    assert(digits[0] != 'x' && !is_space(digits[0]) && !is_space(digits[digits.len() - 1]));
    law_trimming_takes_the_space_around(none, digits, none);
    assert(none + digits + none =~= digits);
    law_trimming_takes_the_space_around(seq![' '], digits, seq![' ']);
    let p = seq!['0', 'x'] + digits;
    law_trimming_takes_the_space_around(none, p, none);
    assert(none + p + none =~= p);
    assert(p[0] == '0' && p[1] == 'x');
    assert(p.skip(2) =~= digits);
    assert(p.last() == digits.last());
    assert(strip_0x(digits) == digits) by {
        if digits.len() >= 2 {
            assert(digits[1] != 'x');
        }
    }
    law_hex_is_read_in_either_case(digits, v);
}

proof fn lemma_digits_are_plain(s: Seq<char>, v: nat)
    requires
        spells_hex(s, v),
    ensures
        forall|i: int|
            0 <= i < s.len() ==> !is_space(#[trigger] s[i]) && s[i] != 'x' && s[i] != '(' && s[i]
                != ')' && s[i] != '"',
    decreases s.len(),
{
    if s.len() > 0 {
        lemma_digits_are_plain(s.drop_last(), v / 16);
        reveal_strlit("0123456789abcdef");
        reveal_strlit("0123456789ABCDEF");
        let d = (v % 16) as int;
        assert(0 <= d < 16);
        assert(lower_digits().len() == 16 && upper_digits().len() == 16);
        assert forall|k: int| 0 <= k < 16 implies 48 <= #[trigger] lower_digits()[k] as u32
            && lower_digits()[k] as u32 <= 102 && lower_digits()[k] != 'x' by {}
        assert forall|k: int| 0 <= k < 16 implies 48 <= #[trigger] upper_digits()[k] as u32
            && upper_digits()[k] as u32 <= 70 by {}
        let c = s.last();
        assert(48 <= c as u32 <= 102 && c != 'x');
        assert forall|i: int| 0 <= i < s.len() implies !is_space(#[trigger] s[i]) && s[i] != 'x'
            && s[i] != '(' && s[i] != ')' && s[i] != '"' by {
            if i < s.len() - 1 {
                assert(s[i] == s.drop_last()[i]);
            }
        }
    }
}

/// Whichever way a checksum's eight digits are spelled, the game is looked up
/// by the checksum: a text of this one game gives its name.
pub proof fn law_either_spelling_of_a_checksum_is_found(
    names: Map<u32, Seq<char>>,
    name: Seq<char>,
    file: Seq<char>,
    crc: Seq<char>,
    v: u32,
    gap: Seq<char>,
)
    requires
        !name.contains('"'),
        !file.contains('"'),
        file != "("@ && file != ")"@ && file != "crc"@ && file != "crc32"@,
        is_gap(gap),
        crc.len() == 8,
        spells_hex(crc, v as nat),
        !names.contains_key(v),
    ensures
        ({
            let text = game_text("game"@, name, file, "crc"@, crc, gap, Seq::empty());
            with_text(names, text) == names.insert(v, name)
        }),
{
    lemma_digits_are_plain(crc, v as nat);
    let none = Seq::<char>::empty();
    assert(trim_front(none) == none);
    law_a_game_is_known_by_its_checksum(
        names,
        "game"@,
        name,
        file,
        "crc"@,
        crc,
        v,
        gap,
        none,
    );
    assert(strip_marks(none) == none);
    assert(tokens(none) =~= Seq::<Seq<char>>::empty());
    assert(entries(tokens(none), 0) =~= Seq::empty());
}

/// Whether tokens say nothing that matters to a block: no brackets, and neither
/// a name nor a checksum is introduced.
pub open spec fn is_filler(f: Seq<Seq<char>>) -> bool {
    forall|i: int|
        0 <= i < f.len() ==> #[trigger] f[i] != "("@ && f[i] != ")"@ && f[i] != "name"@ && f[i]
            != "crc"@ && f[i] != "crc32"@
}

proof fn lemma_filler_is_skipped(
    t: Seq<Seq<char>>,
    i: int,
    f: Seq<Seq<char>>,
    depth: nat,
    name: Option<Seq<char>>,
    crcs: Seq<Seq<char>>,
)
    requires
        0 <= i,
        i + f.len() <= t.len(),
        t.subrange(i, i + f.len()) == f,
        is_filler(f),
        depth > 0,
    ensures
        game_block(t, i, depth, name, crcs) == game_block(t, i + f.len(), depth, name, crcs),
    decreases f.len(),
{
    if f.len() > 0 {
        assert(t[i] == t.subrange(i, i + f.len())[0]);
        assert(f[0] == t[i]);
        let g = f.skip(1);
        assert(t.subrange(i + 1, i + 1 + g.len()) =~= g) by {
            assert forall|k: int| 0 <= k < g.len() implies t.subrange(i + 1, i + 1 + g.len())[k]
                == g[k] by {
                assert(t.subrange(i, i + f.len())[k + 1] == f[k + 1]);
            }
        }
        assert forall|k: int| 0 <= k < g.len() implies #[trigger] g[k] != "("@ && g[k] != ")"@
            && g[k] != "name"@ && g[k] != "crc"@ && g[k] != "crc32"@ by {
            assert(f[k + 1] == g[k]);
        }
        lemma_filler_is_skipped(t, i + 1, g, depth, name, crcs);
    }
}

/// Whatever else a DAT says of a game, its description, its region, its file's
/// size and other digests, is passed over wherever it stands: the checksum goes
/// with the name, once, and what follows is read on its own.
pub proof fn law_what_else_is_said_of_a_game_is_passed_over(
    head: Seq<char>,
    a: Seq<Seq<char>>,
    name: Seq<char>,
    b: Seq<Seq<char>>,
    c: Seq<Seq<char>>,
    key: Seq<char>,
    crc: Seq<char>,
    d: Seq<Seq<char>>,
    e: Seq<Seq<char>>,
    more: Seq<Seq<char>>,
)
    requires
        head == "game"@ || head == "machine"@,
        key == "crc"@ || key == "crc32"@,
        is_filler(a) && is_filler(b) && is_filler(c) && is_filler(d) && is_filler(e),
    ensures
        entries(
            seq![head, "("@] + a + seq!["name"@, name] + b + seq!["("@] + c + seq![key, crc] + d
                + seq![")"@] + e + seq![")"@] + more,
            0,
        ) == seq![(crc, name)] + entries(more, 0),
{
    lemma_words();
    let pre = seq![head, "("@] + a + seq!["name"@, name] + b + seq!["("@] + c + seq![key, crc] + d
        + seq![")"@] + e + seq![")"@];
    let t = pre + more;
    let none = Seq::<Seq<char>>::empty();
    let one = none.push(crc);
    let i1 = 2 + a.len() as int;
    let i2 = i1 + 2;
    let i3 = i2 + b.len();
    let i4 = i3 + 1;
    let i5 = i4 + c.len();
    let i6 = i5 + 2;
    let i7 = i6 + d.len();
    let i8 = i7 + 1;
    let i9 = i8 + e.len();
    let end = i9 + 1;
    assert(pre.len() == end);
    assert(t[0] == head && t[1] == "("@);
    assert(t.subrange(2, i1) =~= a);
    assert(t[i1] == "name"@ && t[i1 + 1] == name);
    assert(t.subrange(i2, i3) =~= b);
    assert(t[i3] == "("@);
    assert(t.subrange(i4, i5) =~= c);
    assert(t[i5] == key && t[i5 + 1] == crc);
    assert(t.subrange(i6, i7) =~= d);
    assert(t[i7] == ")"@);
    assert(t.subrange(i8, i9) =~= e);
    assert(t[i9] == ")"@);
    lemma_filler_is_skipped(t, 2, a, 1, None, none);
    lemma_filler_is_skipped(t, i2, b, 1, Some(name), none);
    lemma_filler_is_skipped(t, i4, c, 2, Some(name), none);
    lemma_filler_is_skipped(t, i6, d, 2, Some(name), one);
    lemma_filler_is_skipped(t, i8, e, 1, Some(name), one);
    assert(game_starts(t, 0));
    let all = (end, Some(name), one);
    assert(game_block(t, end, 0, Some(name), one) == all);
    assert(game_block(t, i9, 1, Some(name), one) == all);
    assert(game_block(t, i7, 2, Some(name), one) == all);
    assert(game_block(t, i5, 2, Some(name), none) == all);
    assert(game_block(t, i3, 1, Some(name), none) == all);
    assert(game_block(t, i1, 1, None, none) == all);
    assert(game_block(t, 2, 1, None, none) == all);
    assert(named(Some(name), one) =~= seq![(crc, name)]);
    lemma_entries_shift(pre, more, 0);
}

/// A text without a game names nothing: what stands outside any game is passed
/// over.
pub proof fn law_text_without_games_names_nothing(names: Map<u32, Seq<char>>, text: Seq<char>)
    requires
        ({
            let t = tokens(strip_marks(text));
            forall|i: int| 0 <= i < t.len() ==> #[trigger] t[i] != "game"@ && t[i] != "machine"@
        }),
    ensures
        with_text(names, text) == names,
{
    lemma_no_games(tokens(strip_marks(text)), 0);
}

proof fn lemma_no_games(t: Seq<Seq<char>>, i: int)
    requires
        0 <= i,
        forall|k: int| 0 <= k < t.len() ==> #[trigger] t[k] != "game"@ && t[k] != "machine"@,
    ensures
        entries(t, i).len() == 0,
    decreases
            if i < t.len() {
                t.len() - i
            } else {
                0
            },
{
    if i < t.len() {
        assert(t[i] != "game"@);
        lemma_no_games(t, i + 1);
    }
}

/// A byte-order mark in front of a text changes nothing.
pub proof fn law_byte_order_marks_are_passed_over(
    names: Map<u32, Seq<char>>,
    mark: char,
    text: Seq<char>,
)
    requires
        mark as u32 == 0xfeff,
    ensures
        with_text(names, seq![mark] + text) == with_text(names, text),
{
    let s = seq![mark] + text;
    assert(s[0] == mark);
    assert(s.skip(1) =~= text);
}

/// The names of one text alone are those it adds to none: a text of one game
/// names that game and no other.
pub proof fn law_one_game_names_one_checksum(
    name: Seq<char>,
    file: Seq<char>,
    crc: Seq<char>,
    v: u32,
    gap: Seq<char>,
    other: u32,
)
    requires
        !name.contains('"'),
        !file.contains('"'),
        file != "("@ && file != ")"@ && file != "crc"@ && file != "crc32"@,
        is_gap(gap),
        crc.len() == 8,
        spells_hex(crc, v as nat),
    ensures
        ({
            let names = crate::nointro::names_in(
                game_text("game"@, name, file, "crc"@, crc, gap, Seq::empty()),
            );
            &&& names.contains_key(v) && names[v] == name
            &&& other != v ==> !names.contains_key(other)
        }),
{
    law_either_spelling_of_a_checksum_is_found(Map::empty(), name, file, crc, v, gap);
}

/// What stands in front of the first game is passed over, a DAT's own
/// description among it.
pub proof fn law_what_stands_before_the_games_is_passed_over(
    pre: Seq<Seq<char>>,
    t: Seq<Seq<char>>,
    i: int,
)
    requires
        0 <= i <= pre.len(),
        forall|k: int| 0 <= k < pre.len() ==> #[trigger] pre[k] != "game"@ && pre[k] != "machine"@,
    ensures
        entries(pre + t, i) == entries(t, 0),
    decreases pre.len() - i,
{
    if i < pre.len() {
        assert((pre + t)[i] == pre[i]);
        assert(!game_starts(pre + t, i));
        law_what_stands_before_the_games_is_passed_over(pre, t, i + 1);
    } else {
        lemma_entries_shift(pre, t, 0);
    }
}

/// A game of several ROMs is known by the checksum of each.
pub proof fn law_every_rom_of_a_game_is_known(
    head: Seq<char>,
    name: Seq<char>,
    first: Seq<char>,
    second: Seq<char>,
    more: Seq<Seq<char>>,
)
    requires
        head == "game"@ || head == "machine"@,
    ensures
        entries(
            seq![
                head,
                "("@,
                "name"@,
                name,
                "rom"@,
                "("@,
                "crc"@,
                first,
                ")"@,
                "rom"@,
                "("@,
                "crc"@,
                second,
                ")"@,
                ")"@,
            ] + more,
            0,
        ) == seq![(first, name), (second, name)] + entries(more, 0),
        entries(seq![head, "("@, "rom"@, "("@, "crc"@, first, ")"@, ")"@] + more, 0) == entries(
            more,
            0,
        ),
{
    lemma_words();
    let none = Seq::<Seq<char>>::empty();
    let pre = seq![
        head,
        "("@,
        "name"@,
        name,
        "rom"@,
        "("@,
        "crc"@,
        first,
        ")"@,
        "rom"@,
        "("@,
        "crc"@,
        second,
        ")"@,
        ")"@,
    ];
    let t = pre + more;
    let one = none.push(first);
    let two = one.push(second);
    let all = (15int, Some(name), two);
    assert(t[0] == head && t[1] == "("@ && t[2] == "name"@ && t[3] == name && t[4] == "rom"@ && t[5]
        == "("@ && t[6] == "crc"@ && t[7] == first && t[8] == ")"@ && t[9] == "rom"@ && t[10]
        == "("@ && t[11] == "crc"@ && t[12] == second && t[13] == ")"@ && t[14] == ")"@);
    assert(game_starts(t, 0));
    assert(game_block(t, 15, 0, Some(name), two) == all);
    assert(game_block(t, 14, 1, Some(name), two) == all);
    assert(game_block(t, 13, 2, Some(name), two) == all);
    assert(game_block(t, 11, 2, Some(name), one) == all);
    assert(game_block(t, 10, 1, Some(name), one) == all);
    assert(game_block(t, 9, 1, Some(name), one) == all);
    assert(game_block(t, 8, 2, Some(name), one) == all);
    assert(game_block(t, 6, 2, Some(name), none) == all);
    assert(game_block(t, 5, 1, Some(name), none) == all);
    assert(game_block(t, 4, 1, Some(name), none) == all);
    assert(game_block(t, 2, 1, None, none) == all);
    assert(named(Some(name), two) =~= seq![(first, name), (second, name)]);
    lemma_entries_shift(pre, more, 0);
    let bare = seq![head, "("@, "rom"@, "("@, "crc"@, first, ")"@, ")"@];
    let u = bare + more;
    let left = (8int, None::<Seq<char>>, one);
    assert(u[0] == head && u[1] == "("@ && u[2] == "rom"@ && u[3] == "("@ && u[4] == "crc"@ && u[5]
        == first && u[6] == ")"@ && u[7] == ")"@);
    assert(game_starts(u, 0));
    assert(game_block(u, 8, 0, None, one) == left);
    assert(game_block(u, 7, 1, None, one) == left);
    assert(game_block(u, 6, 2, None, one) == left);
    assert(game_block(u, 4, 2, None, none) == left);
    assert(game_block(u, 3, 1, None, none) == left);
    assert(game_block(u, 2, 1, None, none) == left);
    assert(named(None, one) =~= Seq::empty());
    lemma_entries_shift(bare, more, 0);
    assert(Seq::<(Seq<char>, Seq<char>)>::empty() + entries(more, 0) =~= entries(more, 0));
}

} // verus!

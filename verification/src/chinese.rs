//! Pinyin lookup for the Simplified Chinese BIP39 word list.
//!
//! Pinyin is only an input aid: every match resolves to a BIP39 word index,
//! which is then shown as its canonical Chinese character.

use crate::last_word::{MnemonicLanguage, spec_word, word_for_index_in};
use crate::text::{
    all_lowercase, bytes_all_lowercase, bytes_start_with, lemma_starts_with_push, starts_with,
};
use pinyin::{Pinyin, ToPinyinMulti};
use vstd::prelude::*;
use vstd::string::{StrSliceExecFns, StringSliceAdditionalSpecFns};

verus! {

/// The tone-free ("plain") readings of a character, as the `pinyin` crate
/// lists them, or `None` when the crate has no reading for it.
pub uninterp spec fn pinyin_readings(c: char) -> Option<Seq<Seq<char>>>;

/// Calls `pinyin::ToPinyinMulti::to_pinyin_multi` on a character and
/// converts every reading it lists with `pinyin::Pinyin::plain`. The
/// contract names the readings.
#[verifier::external_body]
fn plain_pinyin_readings(c: char) -> (readings: Option<Vec<&'static str>>)
    ensures
        match pinyin_readings(c) {
            None => readings is None,
            Some(rs) => readings matches Some(v) && v@.len() == rs.len() && forall|k: int|
                0 <= k < rs.len() ==> #[trigger] v@[k]@ == rs[k],
        },
{
    c.to_pinyin_multi().map(|multi| multi.into_iter().map(Pinyin::plain).collect())
}

// ---------------------------------------------------------------------------
// The order of table entries.

/// Byte-lexicographic order, the order of `str` and `[u8]` in Rust.
pub open spec fn lex_lt(a: Seq<u8>, b: Seq<u8>) -> bool
    decreases a.len(),
{
    if a.len() == 0 {
        b.len() > 0
    } else if b.len() == 0 {
        false
    } else if a[0] < b[0] {
        true
    } else if a[0] > b[0] {
        false
    } else {
        lex_lt(a.drop_first(), b.drop_first())
    }
}

/// The order of `(spelling, index)` table entries: by spelling, then index.
pub open spec fn entry_lt(a: (Seq<u8>, u16), b: (Seq<u8>, u16)) -> bool {
    lex_lt(a.0, b.0) || (a.0 == b.0 && a.1 < b.1)
}

/// Entries in strictly increasing order: sorted and free of duplicates.
pub open spec fn strictly_sorted(s: Seq<(Seq<u8>, u16)>) -> bool {
    forall|i: int, j: int| 0 <= i < j < s.len() ==> entry_lt(#[trigger] s[i], #[trigger] s[j])
}

proof fn lemma_lex_irreflexive(a: Seq<u8>)
    ensures
        !lex_lt(a, a),
    decreases a.len(),
{
    if a.len() > 0 {
        lemma_lex_irreflexive(a.drop_first());
    }
}

proof fn lemma_lex_transitive(a: Seq<u8>, b: Seq<u8>, c: Seq<u8>)
    requires
        lex_lt(a, b),
        lex_lt(b, c),
    ensures
        lex_lt(a, c),
    decreases a.len(),
{
    if a.len() > 0 && b.len() > 0 && c.len() > 0 && a[0] == b[0] && b[0] == c[0] {
        lemma_lex_transitive(a.drop_first(), b.drop_first(), c.drop_first());
    }
}

proof fn lemma_lex_total(a: Seq<u8>, b: Seq<u8>)
    requires
        a != b,
    ensures
        lex_lt(a, b) || lex_lt(b, a),
    decreases a.len(),
{
    if a.len() > 0 && b.len() > 0 && a[0] == b[0] {
        if a.drop_first() == b.drop_first() {
            assert(a =~= seq![a[0]] + a.drop_first());
            assert(b =~= seq![b[0]] + b.drop_first());
        }
        lemma_lex_total(a.drop_first(), b.drop_first());
    } else if a.len() == 0 && b.len() == 0 {
        assert(a =~= b);
    }
}

proof fn lemma_lex_asymmetric(a: Seq<u8>, b: Seq<u8>)
    requires
        lex_lt(a, b),
    ensures
        !lex_lt(b, a),
    decreases a.len(),
{
    if a.len() > 0 && b.len() > 0 && a[0] == b[0] {
        lemma_lex_asymmetric(a.drop_first(), b.drop_first());
    }
}

/// `entry_lt` is a strict total order.
proof fn lemma_entry_order(a: (Seq<u8>, u16), b: (Seq<u8>, u16), c: (Seq<u8>, u16))
    ensures
        !entry_lt(a, a),
        entry_lt(a, b) && entry_lt(b, c) ==> entry_lt(a, c),
        entry_lt(a, b) ==> !entry_lt(b, a),
        a != b ==> entry_lt(a, b) || entry_lt(b, a),
{
    lemma_lex_irreflexive(a.0);
    if entry_lt(a, b) && entry_lt(b, c) {
        if lex_lt(a.0, b.0) && lex_lt(b.0, c.0) {
            lemma_lex_transitive(a.0, b.0, c.0);
        }
    }
    if lex_lt(a.0, b.0) {
        lemma_lex_asymmetric(a.0, b.0);
    }
    if a != b && a.0 != b.0 {
        lemma_lex_total(a.0, b.0);
    }
}

/// Decides [`lex_lt`].
fn bytes_less(a: &[u8], b: &[u8]) -> (result: bool)
    ensures
        result == lex_lt(a@, b@),
{
    let mut i: usize = 0;
    proof {
        assert(a@.skip(0) =~= a@);
        assert(b@.skip(0) =~= b@);
    }
    while i < a.len() && i < b.len() && a[i] == b[i]
        invariant
            i <= a@.len(),
            i <= b@.len(),
            lex_lt(a@, b@) == lex_lt(a@.skip(i as int), b@.skip(i as int)),
        decreases a@.len() - i,
    {
        proof {
            assert(a@.skip(i as int).drop_first() =~= a@.skip(i + 1));
            assert(b@.skip(i as int).drop_first() =~= b@.skip(i + 1));
        }
        i = i + 1;
    }
    if i == a.len() {
        i < b.len()
    } else if i == b.len() {
        false
    } else {
        a[i] < b[i]
    }
}


// ---------------------------------------------------------------------------
// Spellings.

/// Replaces every `u:` (left to right, without overlap) by `v`, as
/// `str::replace("u:", "v")` does.
pub open spec fn replace_u_colon(s: Seq<char>) -> Seq<char>
    decreases s.len(),
{
    if s.len() == 0 {
        s
    } else if s.len() >= 2 && s[0] == 'u' && s[1] == ':' {
        seq!['v'] + replace_u_colon(s.subrange(2, s.len() as int))
    } else {
        seq![s[0]] + replace_u_colon(s.drop_first())
    }
}

/// Replaces every `ü` by `v`.
pub open spec fn replace_u_umlaut(s: Seq<char>) -> Seq<char> {
    s.map_values(|c: char| if c == '\u{00fc}' { 'v' } else { c })
}

/// The keyboard spelling of a plain pinyin reading: `u:` and `ü` become `v`.
pub open spec fn normalize_pinyin(s: Seq<char>) -> Seq<char> {
    replace_u_umlaut(replace_u_colon(s))
}

/// Whether every character is an ASCII lowercase letter.
pub open spec fn is_spelling(s: Seq<char>) -> bool {
    forall|i: int| 0 <= i < s.len() ==> 97 <= #[trigger] (s[i] as u32) <= 122
}

/// The ASCII bytes of a spelling.
pub open spec fn spelling_bytes(s: Seq<char>) -> Seq<u8> {
    s.map_values(|c: char| (c as u32) as u8)
}

/// The characters of a string, collected one by one.
pub(crate) fn chars_of(text: &str) -> (chars: Vec<char>)
    ensures
        chars@ == text@,
{
    let n = text.unicode_len();
    let mut chars: Vec<char> = Vec::new();
    let mut i: usize = 0;
    while i < n
        invariant
            n == text@.len(),
            i <= n,
            chars@ == text@.subrange(0, i as int),
        decreases n - i,
    {
        chars.push(text.get_char(i));
        proof {
            assert(chars@ =~= text@.subrange(0, i + 1));
        }
        i = i + 1;
    }
    proof {
        assert(text@.subrange(0, n as int) =~= text@);
    }
    chars
}

/// The keyboard spelling of a plain reading as bytes, when it consists of
/// lowercase ASCII letters only.
fn normalized_spelling(reading: &str) -> (spelling: Option<Vec<u8>>)
    ensures
        match spelling {
            Some(bytes) => is_spelling(normalize_pinyin(reading@)) && bytes@ == spelling_bytes(
                normalize_pinyin(reading@),
            ),
            None => !is_spelling(normalize_pinyin(reading@)),
        },
{
    let chars = chars_of(reading);
    let ghost s = reading@;
    let n = chars.len();
    let mut replaced: Vec<char> = Vec::new();
    let mut i: usize = 0;
    proof {
        assert(s.subrange(0, n as int) =~= s);
        assert(replaced@ + replace_u_colon(s.subrange(0, n as int)) =~= replace_u_colon(s));
    }
    while i < n
        invariant
            n == s.len(),
            chars@ == s,
            i <= n,
            replace_u_colon(s) == replaced@ + replace_u_colon(s.subrange(i as int, n as int)),
        decreases n - i,
    {
        let ghost rest = s.subrange(i as int, n as int);
        if i + 1 < n && chars[i] == 'u' && chars[i + 1] == ':' {
            proof {
                assert(rest[0] == 'u' && rest[1] == ':');
                assert(rest.subrange(2, rest.len() as int) =~= s.subrange(i + 2, n as int));
                assert(replaced@.push('v') + replace_u_colon(s.subrange(i + 2, n as int))
                    =~= replaced@ + (seq!['v'] + replace_u_colon(s.subrange(i + 2, n as int))));
            }
            replaced.push('v');
            i = i + 2;
        } else {
            proof {
                assert(rest.drop_first() =~= s.subrange(i + 1, n as int));
                assert(replaced@.push(chars@[i as int]) + replace_u_colon(
                    s.subrange(i + 1, n as int),
                ) =~= replaced@ + (seq![rest[0]] + replace_u_colon(s.subrange(i + 1, n as int))));
            }
            replaced.push(chars[i]);
            i = i + 1;
        }
    }
    proof {
        assert(s.subrange(n as int, n as int) =~= Seq::<char>::empty());
        assert(replaced@ =~= replace_u_colon(s));
    }
    let ghost r = replaced@;
    let mut bytes: Vec<u8> = Vec::new();
    let mut j: usize = 0;
    while j < replaced.len()
        invariant
            r == replaced@,
            j <= r.len(),
            r == replace_u_colon(s),
            s == reading@,
            is_spelling(replace_u_umlaut(r).subrange(0, j as int)),
            bytes@ == spelling_bytes(replace_u_umlaut(r).subrange(0, j as int)),
        decreases r.len() - j,
    {
        let c = if replaced[j] == '\u{00fc}' {
            'v'
        } else {
            replaced[j]
        };
        proof {
            assert(replace_u_umlaut(r)[j as int] == c);
        }
        let code = c as u32;
        if code < 97 || code > 122 {
            proof {
                assert(normalize_pinyin(reading@) == replace_u_umlaut(r));
                assert(!(97 <= (normalize_pinyin(reading@)[j as int] as u32) <= 122));
            }
            return None;
        }
        bytes.push(code as u8);
        proof {
            assert(replace_u_umlaut(r).subrange(0, j + 1) =~= replace_u_umlaut(r).subrange(
                0,
                j as int,
            ).push(c));
            assert(bytes@ =~= spelling_bytes(replace_u_umlaut(r).subrange(0, j + 1)));
        }
        j = j + 1;
    }
    proof {
        assert(replace_u_umlaut(r).subrange(0, r.len() as int) =~= replace_u_umlaut(r));
    }
    Some(bytes)
}


// ---------------------------------------------------------------------------
// The pinyin table.

/// The plain readings of the Simplified Chinese word at `index` (none unless
/// the word is a single character).
pub open spec fn chinese_readings(index: int) -> Seq<Seq<char>> {
    let word = spec_word(MnemonicLanguage::SimplifiedChinese, index);
    if word.len() == 1 {
        match pinyin_readings(word[0]) {
            Some(rs) => rs,
            None => Seq::empty(),
        }
    } else {
        Seq::empty()
    }
}

/// The keyboard spelling of reading `k` of the word at `index`.
pub open spec fn reading_spelling(index: int, k: int) -> Seq<char> {
    normalize_pinyin(chinese_readings(index)[k])
}

/// Whether reading `k` of the word at `index` gives the spelling `spelling`.
pub open spec fn reading_gives(spelling: Seq<u8>, index: int, k: int) -> bool {
    &&& 0 <= k < chinese_readings(index).len()
    &&& is_spelling(reading_spelling(index, k))
    &&& spelling == spelling_bytes(reading_spelling(index, k))
}

/// Whether `(spelling, index)` is a row of the pinyin table: a lowercase
/// keyboard spelling of one reading of the Simplified Chinese word at
/// `index`.
pub open spec fn is_pinyin_entry(spelling: Seq<u8>, index: int) -> bool {
    0 <= index < 2048 && exists|k: int| #[trigger] reading_gives(spelling, index, k)
}

/// One table row: a keyboard spelling and the word index it reaches.
pub struct PinyinEntry {
    spelling: Vec<u8>,
    index: u16,
}

impl View for PinyinEntry {
    type V = (Seq<u8>, u16);

    closed spec fn view(&self) -> (Seq<u8>, u16) {
        (self.spelling@, self.index)
    }
}

/// The views of table rows.
pub open spec fn entry_views(entries: Seq<PinyinEntry>) -> Seq<(Seq<u8>, u16)> {
    entries.map_values(|e: PinyinEntry| e@)
}

/// Decides [`entry_lt`].
fn entry_less(a: &PinyinEntry, b: &PinyinEntry) -> (result: bool)
    ensures
        result == entry_lt(a@, b@),
{
    if bytes_less(a.spelling.as_slice(), b.spelling.as_slice()) {
        return true;
    }
    if bytes_less(b.spelling.as_slice(), a.spelling.as_slice()) {
        return false;
    }
    proof {
        if a.spelling@ != b.spelling@ {
            lemma_lex_total(a.spelling@, b.spelling@);
        }
    }
    a.index < b.index
}

/// Inserts a row into strictly sorted rows, keeping them strictly sorted; a
/// row that is already present is not inserted again.
fn insert_entry(entries: &mut Vec<PinyinEntry>, entry: PinyinEntry)
    requires
        strictly_sorted(entry_views(old(entries)@)),
    ensures
        strictly_sorted(entry_views(final(entries)@)),
        forall|x: (Seq<u8>, u16)|
            entry_views(final(entries)@).contains(x) <==> (entry_views(old(entries)@).contains(x)
                || x == entry@),
{
    let ghost before = entry_views(entries@);
    let mut pos: usize = 0;
    while pos < entries.len() && entry_less(&entries[pos], &entry)
        invariant
            pos <= entries@.len(),
            before == entry_views(entries@),
            strictly_sorted(before),
            forall|j: int| 0 <= j < pos ==> entry_lt(#[trigger] before[j], entry@),
        decreases entries@.len() - pos,
    {
        pos = pos + 1;
    }
    if pos < entries.len() && !entry_less(&entry, &entries[pos]) {
        // `entries[pos]` is neither below nor above the row: it is the row.
        proof {
            lemma_entry_order(before[pos as int], entry@, entry@);
            assert(before[pos as int] == entry@);
            assert forall|x: (Seq<u8>, u16)| before.contains(x) || x == entry@ implies before.contains(
                x,
            ) by {
                if x == entry@ {
                    assert(before[pos as int] == x);
                }
            }
        }
        return;
    }
    let ghost e = entry@;
    entries.insert(pos, entry);
    proof {
        let after = entry_views(entries@);
        assert(after =~= before.insert(pos as int, e));
        if pos < before.len() {
            lemma_entry_order(before[pos as int], e, e);
            assert(entry_lt(e, before[pos as int]));
        }
        assert forall|i: int, j: int| 0 <= i < j < after.len() implies entry_lt(
            #[trigger] after[i],
            #[trigger] after[j],
        ) by {
            if j < pos {
                assert(after[i] == before[i] && after[j] == before[j]);
            } else if j == pos {
                assert(after[j] == e && after[i] == before[i]);
            } else if i == pos {
                assert(after[j] == before[j - 1]);
                if j - 1 > pos {
                    assert(entry_lt(before[pos as int], before[j - 1]));
                    lemma_entry_order(e, before[pos as int], before[j - 1]);
                }
            } else if i < pos {
                assert(after[i] == before[i] && after[j] == before[j - 1]);
                lemma_entry_order(before[i], e, before[pos as int]);
                if j - 1 > pos {
                    assert(entry_lt(before[pos as int], before[j - 1]));
                    lemma_entry_order(e, before[pos as int], before[j - 1]);
                }
                lemma_entry_order(before[i], e, before[j - 1]);
            } else {
                assert(after[i] == before[i - 1] && after[j] == before[j - 1]);
            }
        }
        assert forall|x: (Seq<u8>, u16)| after.contains(x) <==> (before.contains(x) || x == e) by {
            if after.contains(x) {
                let k = choose|k: int| 0 <= k < after.len() && after[k] == x;
                if k < pos {
                    assert(before[k] == x);
                } else if k > pos {
                    assert(before[k - 1] == x);
                }
            }
            if before.contains(x) {
                let k = choose|k: int| 0 <= k < before.len() && before[k] == x;
                if k < pos {
                    assert(after[k] == x);
                } else {
                    assert(after[k + 1] == x);
                }
            }
            if x == e {
                assert(after[pos as int] == x);
            }
        }
    }
}


/// Whether a row belongs to the matches for `prefix`.
pub open spec fn matches_prefix(x: (Seq<u8>, u16), prefix: Seq<u8>) -> bool {
    is_pinyin_entry(x.0, x.1 as int) && starts_with(x.0, prefix)
}

/// Whether a row is among the matches for `prefix` found after the words
/// before `index` and the first `k` readings of the word at `index`.
pub open spec fn row_found(x: (Seq<u8>, u16), prefix: Seq<u8>, index: int, k: int) -> bool {
    ||| (x.1 < index && matches_prefix(x, prefix))
    ||| (x.1 == index && starts_with(x.0, prefix) && exists|j: int|
        0 <= j < k && #[trigger] reading_gives(x.0, index, j))
}

proof fn lemma_row_found_insert(
    old_rows: Seq<(Seq<u8>, u16)>,
    new_rows: Seq<(Seq<u8>, u16)>,
    spelling: Seq<u8>,
    prefix: Seq<u8>,
    index: u16,
    k: int,
)
    requires
        0 <= k,
        forall|x: (Seq<u8>, u16)| #[trigger] old_rows.contains(x) <==> row_found(x, prefix, index as int, k),
        forall|x: (Seq<u8>, u16)| #[trigger] new_rows.contains(x) <==> (old_rows.contains(x) || x == (spelling, index)),
        reading_gives(spelling, index as int, k),
        starts_with(spelling, prefix),
    ensures
        forall|x: (Seq<u8>, u16)| #[trigger] new_rows.contains(x) <==> row_found(x, prefix, index as int, k + 1),
{
    assert forall|x: (Seq<u8>, u16)| #[trigger] new_rows.contains(x) <==> row_found(x, prefix, index as int, k + 1) by {
        if row_found(x, prefix, index as int, k + 1) && x.1 == index && !(x.1 < index) {
            let j = choose|j: int| 0 <= j < k + 1 && #[trigger] reading_gives(x.0, index as int, j);
            if j < k {
                assert(row_found(x, prefix, index as int, k));
                assert(old_rows.contains(x));
            } else {
                assert(reading_gives(x.0, index as int, k));
                assert(x.0 == spelling);
            }
        }
        if old_rows.contains(x) {
            assert(row_found(x, prefix, index as int, k));
            if x.1 == index {
                let j = choose|j: int| 0 <= j < k && #[trigger] reading_gives(x.0, index as int, j);
                assert(0 <= j < k + 1 && reading_gives(x.0, index as int, j));
            }
        }
        if x == (spelling, index) {
            assert(0 <= k < k + 1 && reading_gives(x.0, index as int, k));
        }
    }
}

proof fn lemma_row_found_skip(rows: Seq<(Seq<u8>, u16)>, prefix: Seq<u8>, index: u16, k: int)
    requires
        0 <= k,
        forall|x: (Seq<u8>, u16)| #[trigger] rows.contains(x) <==> row_found(x, prefix, index as int, k),
        forall|sp: Seq<u8>| #[trigger] reading_gives(sp, index as int, k) ==> !starts_with(sp, prefix),
    ensures
        forall|x: (Seq<u8>, u16)| #[trigger] rows.contains(x) <==> row_found(x, prefix, index as int, k + 1),
{
    assert forall|x: (Seq<u8>, u16)| #[trigger] rows.contains(x) <==> row_found(x, prefix, index as int, k + 1) by {
        if row_found(x, prefix, index as int, k + 1) && x.1 == index && !(x.1 < index) {
            let j = choose|j: int| 0 <= j < k + 1 && #[trigger] reading_gives(x.0, index as int, j);
            if j == k {
                assert(!starts_with(x.0, prefix));
            }
            assert(row_found(x, prefix, index as int, k));
        }
        if rows.contains(x) {
            assert(row_found(x, prefix, index as int, k));
            if x.1 == index {
                let j = choose|j: int| 0 <= j < k && #[trigger] reading_gives(x.0, index as int, j);
                assert(0 <= j < k + 1 && reading_gives(x.0, index as int, j));
            }
        }
    }
}

/// The rows of the pinyin table whose spelling starts with `prefix`, in
/// increasing order of (spelling, index) and without duplicates.
fn matching_entries(prefix: &[u8]) -> (entries: Vec<PinyinEntry>)
    ensures
        strictly_sorted(entry_views(entries@)),
        forall|x: (Seq<u8>, u16)|
            entry_views(entries@).contains(x) <==> matches_prefix(x, prefix@),
{
    let mut entries: Vec<PinyinEntry> = Vec::new();
    let mut index: u16 = 0;
    proof {
        assert(entry_views(entries@) =~= Seq::<(Seq<u8>, u16)>::empty());
    }
    while index < 2048
        invariant
            index <= 2048,
            strictly_sorted(entry_views(entries@)),
            forall|x: (Seq<u8>, u16)|
                #[trigger] entry_views(entries@).contains(x) <==> (x.1 < index && matches_prefix(
                    x,
                    prefix@,
                )),
        decreases 2048 - index,
    {
        let word = match word_for_index_in(MnemonicLanguage::SimplifiedChinese, index) {
            Some(word) => word,
            None => "",
        };
        let ghost rs = chinese_readings(index as int);
        let readings: Vec<&'static str> = if word.unicode_len() == 1 {
            match plain_pinyin_readings(word.get_char(0)) {
                Some(readings) => readings,
                None => Vec::new(),
            }
        } else {
            Vec::new()
        };
        proof {
            assert(readings@.len() == rs.len());
            assert forall|x: (Seq<u8>, u16)| #[trigger] entry_views(entries@).contains(x) <==> row_found(x, prefix@, index as int, 0) by {}
        }
        let mut k: usize = 0;
        while k < readings.len()
            invariant
                index < 2048,
                readings@.len() == rs.len(),
                rs == chinese_readings(index as int),
                forall|j: int| 0 <= j < rs.len() ==> #[trigger] readings@[j]@ == rs[j],
                k <= readings@.len(),
                strictly_sorted(entry_views(entries@)),
                forall|x: (Seq<u8>, u16)|
                    #[trigger] entry_views(entries@).contains(x) <==> row_found(x, prefix@, index as int, k as int),
            decreases readings@.len() - k,
        {
            let ghost old_rows = entry_views(entries@);
            proof {
                assert(readings@[k as int]@ == rs[k as int]);
                assert(normalize_pinyin(readings@[k as int]@) == reading_spelling(index as int, k as int));
            }
            if let Some(spelling) = normalized_spelling(readings[k]) {
                if bytes_start_with(spelling.as_slice(), prefix) {
                    let ghost sp = spelling@;
                    insert_entry(&mut entries, PinyinEntry { spelling, index });
                    proof {
                        assert(reading_gives(sp, index as int, k as int));
                        lemma_row_found_insert(old_rows, entry_views(entries@), sp, prefix@, index, k as int);
                    }
                } else {
                    proof {
                        lemma_row_found_skip(old_rows, prefix@, index, k as int);
                    }
                }
            } else {
                proof {
                    lemma_row_found_skip(old_rows, prefix@, index, k as int);
                }
            }
            k = k + 1;
        }
        proof {
            assert forall|x: (Seq<u8>, u16)| #[trigger] entry_views(entries@).contains(x) <==> (x.1 < index
                + 1 && matches_prefix(x, prefix@)) by {
                if x.1 == index && matches_prefix(x, prefix@) {
                    let j = choose|j: int| #[trigger] reading_gives(x.0, index as int, j);
                    assert(0 <= j < k && reading_gives(x.0, index as int, j));
                }
                if entry_views(entries@).contains(x) {
                    assert(row_found(x, prefix@, index as int, k as int));
                }
            }
        }
        index = index + 1;
    }
    entries
}


/// Whether some row before position `end` reaches word `index`.
pub open spec fn index_seen(rows: Seq<(Seq<u8>, u16)>, end: int, index: u16) -> bool {
    exists|j: int| 0 <= j < end && #[trigger] rows[j].1 == index
}

/// The distinct word indices of the rows, in order of first occurrence.
pub open spec fn distinct_indices(rows: Seq<(Seq<u8>, u16)>) -> Seq<u16>
    decreases rows.len(),
{
    if rows.len() == 0 {
        Seq::empty()
    } else {
        let init = rows.drop_last();
        if index_seen(init, init.len() as int, rows.last().1) {
            distinct_indices(init)
        } else {
            distinct_indices(init).push(rows.last().1)
        }
    }
}

/// The distinct indices of a prefix of the rows are a prefix of those of all
/// the rows.
proof fn lemma_distinct_prefix(rows: Seq<(Seq<u8>, u16)>, a: int, b: int)
    requires
        0 <= a <= b <= rows.len(),
    ensures
        distinct_indices(rows.take(a)).len() <= distinct_indices(rows.take(b)).len(),
        forall|i: int|
            0 <= i < distinct_indices(rows.take(a)).len() ==> #[trigger] distinct_indices(
                rows.take(a),
            )[i] == distinct_indices(rows.take(b))[i],
    decreases b - a,
{
    if a < b {
        lemma_distinct_prefix(rows, a, b - 1);
        let t = rows.take(b);
        assert(t.drop_last() =~= rows.take(b - 1));
    }
}

/// Distinct indices are empty exactly when the rows are.
proof fn lemma_distinct_empty(rows: Seq<(Seq<u8>, u16)>)
    ensures
        (distinct_indices(rows).len() == 0) == (rows.len() == 0),
    decreases rows.len(),
{
    if rows.len() > 0 {
        let init = rows.drop_last();
        lemma_distinct_empty(init);
        if index_seen(init, init.len() as int, rows.last().1) {
            assert(init.len() > 0);
        }
    }
}

/// The distinct indices of the rows have no duplicates, and each one is the
/// index of some row.
proof fn lemma_distinct_indices_from_rows(rows: Seq<(Seq<u8>, u16)>)
    ensures
        distinct_indices(rows).no_duplicates(),
        forall|i: int|
            0 <= i < distinct_indices(rows).len() ==> exists|j: int|
                0 <= j < rows.len() && rows[j].1 == #[trigger] distinct_indices(rows)[i],
    decreases rows.len(),
{
    if rows.len() > 0 {
        let init = rows.drop_last();
        lemma_distinct_indices_from_rows(init);
        let d = distinct_indices(init);
        assert forall|i: int| 0 <= i < d.len() implies exists|j: int|
            0 <= j < rows.len() && rows[j].1 == #[trigger] d[i] by {
            let j = choose|j: int| 0 <= j < init.len() && init[j].1 == d[i];
            assert(rows[j] == init[j]);
        }
        if !index_seen(init, init.len() as int, rows.last().1) {
            let e = d.push(rows.last().1);
            assert forall|i: int, k: int| 0 <= i < e.len() && 0 <= k < e.len() && i != k implies e[i]
                != e[k] by {
                if i == d.len() && k < d.len() {
                    let j = choose|j: int| 0 <= j < init.len() && init[j].1 == d[k];
                    assert(init[j].1 == d[k]);
                } else if k == d.len() && i < d.len() {
                    let j = choose|j: int| 0 <= j < init.len() && init[j].1 == d[i];
                    assert(init[j].1 == d[i]);
                }
            }
            assert forall|i: int| 0 <= i < e.len() implies exists|j: int|
                0 <= j < rows.len() && rows[j].1 == #[trigger] e[i] by {
                if i == d.len() {
                    assert(rows[rows.len() - 1].1 == e[i]);
                } else {
                    assert(e[i] == d[i]);
                }
            }
        }
    }
}

/// Rows that all reach the word list give at most 2048 distinct indices,
/// each inside the list.
proof fn lemma_distinct_indices_bound(rows: Seq<(Seq<u8>, u16)>)
    requires
        forall|j: int| 0 <= j < rows.len() ==> #[trigger] rows[j].1 < 2048,
    ensures
        distinct_indices(rows).len() <= 2048,
        forall|i: int|
            0 <= i < distinct_indices(rows).len() ==> #[trigger] distinct_indices(rows)[i] < 2048,
{
    lemma_distinct_indices_from_rows(rows);
    let d = distinct_indices(rows);
    assert forall|i: int| 0 <= i < d.len() implies #[trigger] d[i] < 2048 by {
        let j = choose|j: int| 0 <= j < rows.len() && rows[j].1 == d[i];
        assert(rows[j].1 < 2048);
    }
    let f = |x: u16| x as int;
    assert(vstd::relations::injective(f));
    d.lemma_no_duplicates_injective(f);
    let m = d.map_values(f);
    m.unique_seq_to_set();
    assert(m.to_set().subset_of(vstd::set_lib::set_int_range(0, 2048))) by {
        assert forall|x: int| m.to_set().contains(x) implies vstd::set_lib::set_int_range(
            0,
            2048,
        ).contains(x) by {
            let i = choose|i: int| 0 <= i < m.len() && m[i] == x;
            assert(d[i] < 2048);
        }
    }
    vstd::set_lib::lemma_int_range(0, 2048);
    vstd::set_lib::lemma_len_subset(m.to_set(), vstd::set_lib::set_int_range(0, 2048));
}

/// Allocation-free pinyin matches for the Simplified Chinese BIP39 word list.
///
/// Pinyin is only an input aid. Resolve a returned index to its canonical
/// Chinese BIP39 character before accepting it as a mnemonic word.
pub struct SimplifiedChinesePinyinMatches {
    entries: Vec<PinyinEntry>,
}

impl View for SimplifiedChinesePinyinMatches {
    type V = Seq<(Seq<u8>, u16)>;

    closed spec fn view(&self) -> Seq<(Seq<u8>, u16)> {
        entry_views(self.entries@)
    }
}

impl SimplifiedChinesePinyinMatches {
    /// The distinct BIP39 word indices matched, in table order.
    pub open spec fn spec_word_indices(&self) -> Seq<u16> {
        distinct_indices(self@)
    }

    /// Returns the number of distinct BIP39 words matched by the pinyin prefix.
    pub fn len(&self) -> (count: usize)
        ensures
            count == self.spec_word_indices().len(),
    {
        let ghost rows = self@;
        let mut count: usize = 0;
        let mut position: usize = 0;
        proof {
            assert(rows.take(0) =~= Seq::<(Seq<u8>, u16)>::empty());
        }
        while position < self.entries.len()
            invariant
                rows == self@,
                rows.len() == self.entries@.len(),
                position <= rows.len(),
                count == distinct_indices(rows.take(position as int)).len(),
                count <= position,
            decreases rows.len() - position,
        {
            let first = self.is_first_entry_for_index(position);
            proof {
                let t = rows.take(position + 1);
                assert(t.drop_last() =~= rows.take(position as int));
                assert(t.last() == rows[position as int]);
                if index_seen(rows, position as int, rows[position as int].1) {
                    let j = choose|j: int| 0 <= j < position && #[trigger] rows[j].1 == rows[position as int].1;
                    assert(t.drop_last()[j].1 == rows[position as int].1);
                }
                if index_seen(t.drop_last(), position as int, rows[position as int].1) {
                    let j = choose|j: int| 0 <= j < position && #[trigger] t.drop_last()[j].1 == rows[position as int].1;
                    assert(rows[j].1 == rows[position as int].1);
                }
            }
            if first {
                count = count + 1;
            }
            position = position + 1;
        }
        proof {
            assert(rows.take(rows.len() as int) =~= rows);
        }
        count
    }

    /// Returns whether the pinyin prefix matches no BIP39 words.
    pub fn is_empty(&self) -> (empty: bool)
        ensures
            empty == (self.spec_word_indices().len() == 0),
    {
        proof {
            lemma_distinct_empty(self@);
        }
        self.entries.len() == 0
    }

    /// Returns the BIP39 word index at the distinct candidate position.
    pub fn word_index_at(&self, candidate_position: usize) -> (index: Option<u16>)
        ensures
            candidate_position < self.spec_word_indices().len() ==> index == Some(
                self.spec_word_indices()[candidate_position as int],
            ),
            candidate_position >= self.spec_word_indices().len() ==> index is None,
    {
        let ghost rows = self@;
        let mut distinct_position: usize = 0;
        let mut position: usize = 0;
        proof {
            assert(rows.take(0) =~= Seq::<(Seq<u8>, u16)>::empty());
        }
        while position < self.entries.len()
            invariant
                rows == self@,
                rows.len() == self.entries@.len(),
                position <= rows.len(),
                distinct_position == distinct_indices(rows.take(position as int)).len(),
                distinct_position <= candidate_position,
            decreases rows.len() - position,
        {
            let first = self.is_first_entry_for_index(position);
            proof {
                let t = rows.take(position + 1);
                assert(t.drop_last() =~= rows.take(position as int));
                assert(t.last() == rows[position as int]);
                if index_seen(rows, position as int, rows[position as int].1) {
                    let j = choose|j: int| 0 <= j < position && #[trigger] rows[j].1 == rows[position as int].1;
                    assert(t.drop_last()[j].1 == rows[position as int].1);
                }
                if index_seen(t.drop_last(), position as int, rows[position as int].1) {
                    let j = choose|j: int| 0 <= j < position && #[trigger] t.drop_last()[j].1 == rows[position as int].1;
                    assert(rows[j].1 == rows[position as int].1);
                }
            }
            if first {
                if distinct_position == candidate_position {
                    proof {
                        lemma_distinct_prefix(rows, position + 1, rows.len() as int);
                        assert(rows.take(rows.len() as int) =~= rows);
                        assert(distinct_indices(rows.take(position + 1))[candidate_position as int]
                            == rows[position as int].1);
                    }
                    return Some(self.entries[position].index);
                }
                distinct_position = distinct_position + 1;
            }
            position = position + 1;
        }
        proof {
            assert(rows.take(rows.len() as int) =~= rows);
        }
        None
    }

    /// Whether no earlier row reaches the word index of the row at
    /// `entry_position`.
    fn is_first_entry_for_index(&self, entry_position: usize) -> (first: bool)
        requires
            entry_position < self@.len(),
        ensures
            first == !index_seen(self@, entry_position as int, self@[entry_position as int].1),
    {
        let index = self.entries[entry_position].index;
        let mut j: usize = 0;
        while j < entry_position
            invariant
                entry_position < self@.len(),
                index == self@[entry_position as int].1,
                j <= entry_position,
                forall|i: int| 0 <= i < j ==> #[trigger] self@[i].1 != index,
            decreases entry_position - j,
        {
            if self.entries[j].index == index {
                proof {
                    assert(self@[j as int].1 == index);
                }
                return false;
            }
            j = j + 1;
        }
        true
    }
}

/// Two strictly sorted sequences with the same elements are equal.
proof fn lemma_sorted_unique(a: Seq<(Seq<u8>, u16)>, b: Seq<(Seq<u8>, u16)>)
    requires
        strictly_sorted(a),
        strictly_sorted(b),
        forall|x: (Seq<u8>, u16)| a.contains(x) <==> b.contains(x),
    ensures
        a == b,
    decreases a.len(),
{
    if a.len() == 0 {
        if b.len() > 0 {
            assert(b.contains(b[0]));
        }
        assert(a =~= b);
    } else {
        assert(a.contains(a[0]));
        let k = choose|k: int| 0 <= k < b.len() && b[k] == a[0];
        assert(b.contains(b[0]));
        let m = choose|m: int| 0 <= m < a.len() && a[m] == b[0];
        if k > 0 {
            assert(entry_lt(b[0], b[k]));
            if m > 0 {
                assert(entry_lt(a[0], a[m]));
                lemma_entry_order(a[0], a[m], a[0]);
            } else {
                lemma_entry_order(b[0], b[k], b[0]);
            }
        }
        assert(a[0] == b[0]);
        let a1 = a.drop_first();
        let b1 = b.drop_first();
        assert forall|x: (Seq<u8>, u16)| a1.contains(x) <==> b1.contains(x) by {
            if a1.contains(x) {
                let i = choose|i: int| 0 <= i < a1.len() && a1[i] == x;
                assert(a[i + 1] == x);
                assert(entry_lt(a[0], x));
                lemma_entry_order(x, x, x);
                assert(b.contains(x));
                let j = choose|j: int| 0 <= j < b.len() && b[j] == x;
                assert(j != 0);
                assert(b1[j - 1] == x);
            }
            if b1.contains(x) {
                let i = choose|i: int| 0 <= i < b1.len() && b1[i] == x;
                assert(b[i + 1] == x);
                assert(entry_lt(b[0], x));
                lemma_entry_order(x, x, x);
                assert(a.contains(x));
                let j = choose|j: int| 0 <= j < a.len() && a[j] == x;
                assert(j != 0);
                assert(a1[j - 1] == x);
            }
        }
        assert(strictly_sorted(a1)) by {
            assert forall|i: int, j: int| 0 <= i < j < a1.len() implies entry_lt(#[trigger] a1[i], #[trigger] a1[j]) by {
                assert(a1[i] == a[i + 1] && a1[j] == a[j + 1]);
            }
        }
        assert(strictly_sorted(b1)) by {
            assert forall|i: int, j: int| 0 <= i < j < b1.len() implies entry_lt(#[trigger] b1[i], #[trigger] b1[j]) by {
                assert(b1[i] == b[i + 1] && b1[j] == b[j + 1]);
            }
        }
        lemma_sorted_unique(a1, b1);
        assert(a =~= seq![a[0]] + a1);
        assert(b =~= seq![b[0]] + b1);
    }
}

/// The rows of the pinyin table for a prefix: strictly sorted, holding
/// exactly the rows whose spelling starts with the prefix. A prefix that is
/// not all lowercase ASCII letters has no rows.
pub open spec fn chinese_rows(prefix: Seq<u8>) -> Seq<(Seq<u8>, u16)> {
    if all_lowercase(prefix) {
        choose|s: Seq<(Seq<u8>, u16)>|
            strictly_sorted(s) && forall|x: (Seq<u8>, u16)| s.contains(x) <==> matches_prefix(x, prefix)
    } else {
        Seq::empty()
    }
}

/// The distinct word indices matched by a pinyin prefix, in table order.
pub open spec fn chinese_word_indices(prefix: Seq<u8>) -> Seq<u16> {
    distinct_indices(chinese_rows(prefix))
}

/// Returns the Simplified Chinese BIP39 words whose tone-free pinyin starts
/// with `prefix`.
///
/// The rows are the keyboard spellings (with `v` for `ü`) of every reading of
/// every word, in increasing order of (spelling, index) without duplicates.
/// Each Chinese character occurs once among the distinct word indices even
/// when it has several pronunciations. A prefix that is not all lowercase
/// ASCII letters matches nothing.
pub fn simplified_chinese_words_by_pinyin_prefix(prefix: &str) -> (matches:
    SimplifiedChinesePinyinMatches)
    ensures
        matches@ == chinese_rows(prefix.spec_bytes()),
        !all_lowercase(prefix.spec_bytes()) ==> matches@.len() == 0,
        all_lowercase(prefix.spec_bytes()) ==> strictly_sorted(matches@) && forall|
            x: (Seq<u8>, u16),
        | matches@.contains(x) <==> matches_prefix(x, prefix.spec_bytes()),
        chinese_word_indices(prefix.spec_bytes()).len() <= 2048,
        chinese_word_indices(prefix.spec_bytes()).len() > 0 <==> (all_lowercase(prefix.spec_bytes())
            && exists|x: (Seq<u8>, u16)| #[trigger] matches_prefix(x, prefix.spec_bytes())),
        chinese_word_indices(prefix.spec_bytes()).no_duplicates(),
        forall|i: int|
            0 <= i < chinese_word_indices(prefix.spec_bytes()).len() ==> #[trigger] chinese_word_indices(
                prefix.spec_bytes(),
            )[i] < 2048,
{
    let prefix_bytes = prefix.as_bytes();
    if !bytes_all_lowercase(prefix_bytes) {
        let matches = SimplifiedChinesePinyinMatches { entries: Vec::new() };
        proof {
            assert(matches@ =~= Seq::<(Seq<u8>, u16)>::empty());
            assert(distinct_indices(matches@) =~= Seq::<u16>::empty());
            lemma_distinct_indices_from_rows(matches@);
        }
        return matches;
    }
    let matches = SimplifiedChinesePinyinMatches { entries: matching_entries(prefix_bytes) };
    proof {
        let p = prefix.spec_bytes();
        let s = choose|s: Seq<(Seq<u8>, u16)>|
            strictly_sorted(s) && forall|x: (Seq<u8>, u16)| s.contains(x) <==> matches_prefix(x, p);
        lemma_sorted_unique(s, matches@);
        assert forall|j: int| 0 <= j < matches@.len() implies #[trigger] matches@[j].1 < 2048 by {
            assert(matches@.contains(matches@[j]));
        }
        lemma_distinct_indices_bound(matches@);
        lemma_distinct_indices_from_rows(matches@);
        lemma_distinct_empty(matches@);
        if matches@.len() > 0 {
            assert(matches@.contains(matches@[0]));
        }
        if exists|x: (Seq<u8>, u16)| #[trigger] matches_prefix(x, p) {
            let x = choose|x: (Seq<u8>, u16)| #[trigger] matches_prefix(x, p);
            assert(matches@.contains(x));
        }
    }
    matches
}

/// Returns the pinyin letters that can continue a Simplified Chinese BIP39
/// prefix: letter `c` is enabled when some matching spelling has it right
/// after the prefix, that is, exactly when the prefix followed by the letter
/// still matches some word (the condition on which
/// `simplified_chinese_words_by_pinyin_prefix` of the longer prefix is not
/// empty).
pub fn simplified_chinese_next_pinyin_letters(prefix: &str) -> (enabled: [bool; 26])
    ensures
        forall|c: int|
            0 <= c < 26 ==> (#[trigger] enabled@[c] <==> exists|x: (Seq<u8>, u16)|
                #[trigger] matches_prefix(x, prefix.spec_bytes()) && all_lowercase(
                    prefix.spec_bytes(),
                ) && x.0.len() > prefix.spec_bytes().len() && x.0[prefix.spec_bytes().len() as int]
                    == 97 + c),
        forall|c: int|
            0 <= c < 26 ==> (#[trigger] enabled@[c] <==> (all_lowercase(
                prefix.spec_bytes().push((97 + c) as u8),
            ) && exists|x: (Seq<u8>, u16)|
                #[trigger] matches_prefix(x, prefix.spec_bytes().push((97 + c) as u8)))),
{
    let matches = simplified_chinese_words_by_pinyin_prefix(prefix);
    let ghost rows = matches@;
    let ghost p = prefix.spec_bytes();
    let plen = prefix.as_bytes().len();
    let mut enabled = [false; 26];
    let mut i: usize = 0;
    while i < matches.entries.len()
        invariant
            rows == matches@,
            rows.len() == matches.entries@.len(),
            plen == p.len(),
            i <= rows.len(),
            !all_lowercase(p) ==> rows.len() == 0,
            all_lowercase(p) ==> forall|x: (Seq<u8>, u16)| rows.contains(x) <==> matches_prefix(x, p),
            forall|c: int|
                0 <= c < 26 ==> (#[trigger] enabled@[c] <==> exists|j: int|
                    0 <= j < i && rows[j].0.len() > plen && #[trigger] rows[j].0[plen as int] == 97
                        + c),
        decreases rows.len() - i,
    {
        let spelling = &matches.entries[i].spelling;
        proof {
            assert(rows[i as int].0 == spelling@);
        }
        if plen < spelling.len() {
            let next = spelling[plen];
            if next >= 97 && next <= 122 {
                let ghost before = enabled@;
                enabled[(next - 97) as usize] = true;
                proof {
                    assert forall|c: int| 0 <= c < 26 implies (#[trigger] enabled@[c] <==> exists|j: int|
                        0 <= j < i + 1 && rows[j].0.len() > plen && #[trigger] rows[j].0[plen as int]
                            == 97 + c) by {
                        if c == next - 97 {
                            assert(rows[i as int].0[plen as int] == 97 + c);
                        } else if enabled@[c] {
                            assert(before[c]);
                        } else {
                            if exists|j: int| 0 <= j < i + 1 && rows[j].0.len() > plen && #[trigger] rows[j].0[plen as int] == 97 + c {
                                let j = choose|j: int| 0 <= j < i + 1 && rows[j].0.len() > plen && #[trigger] rows[j].0[plen as int] == 97 + c;
                                assert(j < i);
                            }
                        }
                    }
                }
            } else {
                proof {
                    assert forall|c: int| 0 <= c < 26 implies (#[trigger] enabled@[c] <==> exists|j: int|
                        0 <= j < i + 1 && rows[j].0.len() > plen && #[trigger] rows[j].0[plen as int]
                            == 97 + c) by {
                        if exists|j: int| 0 <= j < i + 1 && rows[j].0.len() > plen && #[trigger] rows[j].0[plen as int] == 97 + c {
                            let j = choose|j: int| 0 <= j < i + 1 && rows[j].0.len() > plen && #[trigger] rows[j].0[plen as int] == 97 + c;
                            assert(j < i);
                        }
                    }
                }
            }
        }
        i = i + 1;
    }
    proof {
        assert forall|c: int| 0 <= c < 26 implies (#[trigger] enabled@[c] <==> exists|x: (Seq<u8>, u16)|
            #[trigger] matches_prefix(x, p) && all_lowercase(p) && x.0.len() > p.len() && x.0[p.len() as int] == 97 + c) by {
            if enabled@[c] {
                let j = choose|j: int| 0 <= j < i && rows[j].0.len() > plen && #[trigger] rows[j].0[plen as int] == 97 + c;
                assert(rows.contains(rows[j]));
                assert(matches_prefix(rows[j], p));
            }
            if exists|x: (Seq<u8>, u16)| #[trigger] matches_prefix(x, p) && all_lowercase(p) && x.0.len() > p.len() && x.0[p.len() as int] == 97 + c {
                let x = choose|x: (Seq<u8>, u16)| #[trigger] matches_prefix(x, p) && all_lowercase(p) && x.0.len() > p.len() && x.0[p.len() as int] == 97 + c;
                assert(rows.contains(x));
                let j = choose|j: int| 0 <= j < rows.len() && rows[j] == x;
                assert(rows[j].0[plen as int] == 97 + c);
            }
        }
        assert forall|c: int| 0 <= c < 26 implies (#[trigger] enabled@[c] <==> (all_lowercase(
            p.push((97 + c) as u8),
        ) && exists|x: (Seq<u8>, u16)| #[trigger] matches_prefix(x, p.push((97 + c) as u8)))) by {
            let letter = (97 + c) as u8;
            let q = p.push(letter);
            assert forall|w: Seq<u8>| #[trigger] starts_with(w, q) <==> (starts_with(w, p)
                && w.len() > p.len() && w[p.len() as int] == letter) by {
                lemma_starts_with_push(w, p, letter);
            }
            assert(all_lowercase(q) == all_lowercase(p)) by {
                if all_lowercase(p) {
                    assert forall|k: int| 0 <= k < q.len() implies 97 <= #[trigger] q[k] <= 122 by {
                        if k < p.len() {
                            assert(q[k] == p[k]);
                        }
                    }
                }
                if all_lowercase(q) {
                    assert forall|k: int| 0 <= k < p.len() implies 97 <= #[trigger] p[k] <= 122 by {
                        assert(q[k] == p[k]);
                    }
                }
            }
            if enabled@[c] {
                let x = choose|x: (Seq<u8>, u16)| #[trigger] matches_prefix(x, p) && all_lowercase(p)
                    && x.0.len() > p.len() && x.0[p.len() as int] == 97 + c;
                assert(matches_prefix(x, q));
            }
            if all_lowercase(q) && exists|x: (Seq<u8>, u16)| #[trigger] matches_prefix(x, q) {
                let x = choose|x: (Seq<u8>, u16)| #[trigger] matches_prefix(x, q);
                assert(starts_with(x.0, q));
                assert(matches_prefix(x, p));
            }
        }
    }
    enabled
}

} // verus!

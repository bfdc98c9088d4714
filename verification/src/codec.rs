//! The gradebook text codec: grades serialized as one comma-joined list
//! of ordinals in dex order, one cell additionally carrying the cursor
//! marker `|`; and the decoder, which caps at the catalog length and
//! treats a malformed or zero cell as ungraded.
use vstd::prelude::*;
use vstd::string::StrSliceExecFns;
use vstd::string::StringExecFns;

use crate::digits::append_dec;
use crate::digits::spec_dec;
use crate::pokemon::Pokemon;
use crate::pokemon::PokemonView;

verus! {

/// The value of a decimal digit character, 10 for everything else.
pub open spec fn char_digit(c: char) -> int {
    if c == '0' {
        0
    } else if c == '1' {
        1
    } else if c == '2' {
        2
    } else if c == '3' {
        3
    } else if c == '4' {
        4
    } else if c == '5' {
        5
    } else if c == '6' {
        6
    } else if c == '7' {
        7
    } else if c == '8' {
        8
    } else if c == '9' {
        9
    } else {
        10
    }
}

/// Whether every character is a decimal digit.
pub open spec fn all_digits(s: Seq<char>) -> bool {
    forall|i: int| 0 <= i < s.len() ==> char_digit(#[trigger] s[i]) < 10
}

/// The number the digit characters spell, most significant first.
pub open spec fn digits_val(s: Seq<char>) -> int
    decreases s.len(),
{
    if s.len() == 0 {
        0
    } else {
        digits_val(s.drop_last()) * 10 + char_digit(s.last())
    }
}

proof fn lemma_digits_val_nonneg(s: Seq<char>)
    ensures
        digits_val(s) >= 0,
    decreases s.len(),
{
    if s.len() > 0 {
        lemma_digits_val_nonneg(s.drop_last());
    }
}

/// A prefix never spells more than the whole.
proof fn lemma_digits_val_prefix(s: Seq<char>, m: int)
    requires
        0 <= m <= s.len(),
    ensures
        digits_val(s.take(m)) <= digits_val(s),
    decreases s.len(),
{
    lemma_digits_val_nonneg(s);
    if m == s.len() {
        assert(s.take(m) =~= s);
    } else {
        let d = s.drop_last();
        assert(s.take(m) =~= d.take(m));
        lemma_digits_val_prefix(d, m);
        lemma_digits_val_nonneg(d);
    }
}

/// What parsing a cell as a signed 32-bit ordinal yields, with 0 for
/// anything malformed: an optional single sign, then at least one
/// digit, and a value that fits.
pub open spec fn spec_parse_grade(s: Seq<char>) -> int {
    let signed = s.len() > 0 && (s[0] == '-' || s[0] == '+');
    let d = if signed {
        s.drop_first()
    } else {
        s
    };
    if d.len() == 0 || !all_digits(d) {
        0
    } else if s.len() > 0 && s[0] == '-' {
        if digits_val(d) <= 0x8000_0000 {
            -digits_val(d)
        } else {
            0
        }
    } else {
        if digits_val(d) <= 0x7fff_ffff {
            digits_val(d)
        } else {
            0
        }
    }
}

/// The cell with every cursor marker removed.
pub open spec fn strip_cursor(s: Seq<char>) -> Seq<char>
    decreases s.len(),
{
    if s.len() == 0 {
        Seq::empty()
    } else if s.last() == '|' {
        strip_cursor(s.drop_last())
    } else {
        strip_cursor(s.drop_last()).push(s.last())
    }
}

/// The text split on commas; the empty text is one empty cell.
pub open spec fn split_commas(s: Seq<char>) -> Seq<Seq<char>>
    decreases s.len(),
{
    if s.len() == 0 {
        seq![Seq::<char>::empty()]
    } else {
        let rest = split_commas(s.drop_last());
        if s.last() == ',' {
            rest.push(Seq::<char>::empty())
        } else {
            rest.update(rest.len() - 1, rest.last().push(s.last()))
        }
    }
}

pub proof fn lemma_split_commas_len(s: Seq<char>)
    ensures
        split_commas(s).len() >= 1,
    decreases s.len(),
{
    if s.len() > 0 {
        lemma_split_commas_len(s.drop_last());
    }
}

/// The cursor position: the last cell below `cap` that carries the
/// marker, or 0 when none does.
pub open spec fn spec_cursor(tokens: Seq<Seq<char>>, cap: int) -> int
    decreases cap,
{
    if cap <= 0 {
        0
    } else if tokens[cap - 1].contains('|') {
        cap - 1
    } else {
        spec_cursor(tokens, cap - 1)
    }
}

/// The grade a decoded cell sets: the parsed ordinal when it is at
/// least 1, otherwise ungraded (0 is the safe default for malformed
/// cells, and 0 means ungraded).
pub open spec fn token_grade(tok: Seq<char>) -> Option<i32> {
    let v = spec_parse_grade(strip_cursor(tok));
    if v >= 1 {
        Some(v as i32)
    } else {
        None
    }
}

/// The grade serialized for a record: its ordinal, or 0 when ungraded.
pub open spec fn grade_or_zero(r: PokemonView) -> int {
    match r.grade {
        Some(g) => g as int,
        None => 0,
    }
}

/// The first `k` cells of the gradebook line, comma-joined, with the
/// cursor marker prefixed to cell `cursor`.
pub open spec fn csv_prefix(recs: Seq<PokemonView>, cursor: int, k: int) -> Seq<char>
    decreases k,
{
    if k <= 0 {
        Seq::empty()
    } else {
        let cell = (if k - 1 == cursor {
            seq!['|']
        } else {
            Seq::<char>::empty()
        }) + spec_dec(grade_or_zero(recs[k - 1]));
        if k == 1 {
            cell
        } else {
            csv_prefix(recs, cursor, k - 1) + seq![','] + cell
        }
    }
}

/// The whole gradebook line.
pub open spec fn spec_gradebook(recs: Seq<PokemonView>, cursor: int) -> Seq<char> {
    csv_prefix(recs, cursor, recs.len() as int)
}

/// The value of one digit character, 10 for everything else.
fn char_digit_exec(c: char) -> (d: u32)
    ensures
        d as int == char_digit(c),
{
    if c == '0' {
        0
    } else if c == '1' {
        1
    } else if c == '2' {
        2
    } else if c == '3' {
        3
    } else if c == '4' {
        4
    } else if c == '5' {
        5
    } else if c == '6' {
        6
    } else if c == '7' {
        7
    } else if c == '8' {
        8
    } else if c == '9' {
        9
    } else {
        10
    }
}

/// Parses one stripped cell; anything malformed is 0.
#[verifier::loop_isolation(false)]
fn parse_grade(v: &Vec<char>) -> (g: i32)
    ensures
        g as int == spec_parse_grade(v@),
{
    let ghost s = v@;
    let mut idx: usize = 0;
    let mut neg = false;
    if v.len() > 0 && (v[0] == '-' || v[0] == '+') {
        neg = v[0] == '-';
        idx = 1;
    }
    let ghost d = if idx == 1 {
        s.drop_first()
    } else {
        s
    };
    proof {
        assert(forall|j: int| 0 <= j < d.len() ==> d[j] == s[j + idx]);
    }
    if idx >= v.len() {
        return 0;
    }
    let mut acc: i64 = 0;
    let mut j: usize = idx;
    proof {
        assert(d.take(0) =~= Seq::<char>::empty());
    }
    while j < v.len()
        invariant
            idx <= j <= s.len(),
            acc as int == digits_val(d.take(j - idx)),
            all_digits(d.take(j - idx)),
            0 <= acc <= 0x8000_0000,
        decreases s.len() - j,
    {
        let c = v[j];
        let dc = char_digit_exec(c);
        proof {
            assert(d[j - idx] == s[j as int]);
        }
        if dc >= 10 {
            proof {
                assert(char_digit(d[j - idx]) >= 10);
                assert(!all_digits(d));
            }
            return 0;
        }
        proof {
            assert(d.take(j - idx + 1).drop_last() =~= d.take(j - idx));
            assert(d.take(j - idx + 1).last() == d[j - idx]);
        }
        acc = acc * 10 + (dc as i64);
        if acc > 0x8000_0000 {
            proof {
                lemma_digits_val_prefix(d, j - idx + 1);
                lemma_digits_val_nonneg(d);
                assert(digits_val(d) > 0x8000_0000);
            }
            return 0;
        }
        j = j + 1;
    }
    proof {
        assert(d.take(s.len() - idx) =~= d);
    }
    if neg {
        let r = (-acc) as i32;
        proof {
            assert(r as int == -(acc as int));
        }
        r
    } else {
        if acc > 0x7fff_ffff {
            return 0;
        }
        acc as i32
    }
}

/// The characters of a text, in order.
fn str_chars(s: &str) -> (v: Vec<char>)
    ensures
        v@ == s@,
{
    let n = s.unicode_len();
    let mut v: Vec<char> = Vec::new();
    let mut i: usize = 0;
    while i < n
        invariant
            i <= s@.len(),
            n == s@.len(),
            v@ == s@.take(i as int),
        decreases n - i,
    {
        v.push(s.get_char(i));
        proof {
            assert(v@ =~= s@.take(i + 1));
        }
        i = i + 1;
    }
    proof {
        assert(s@.take(s@.len() as int) =~= s@);
    }
    v
}

/// Splits the characters on commas.
#[verifier::loop_isolation(false)]
fn split_csv(v: &Vec<char>) -> (tokens: Vec<Vec<char>>)
    ensures
        tokens.deep_view() == split_commas(v@),
        tokens@.len() >= 1,
{
    let mut tokens: Vec<Vec<char>> = Vec::new();
    tokens.push(Vec::new());
    proof {
        assert(tokens.deep_view() =~~= split_commas(v@.take(0)));
    }
    let mut i: usize = 0;
    while i < v.len()
        invariant
            i <= v@.len(),
            tokens@.len() >= 1,
            tokens.deep_view() == split_commas(v@.take(i as int)),
        decreases v@.len() - i,
    {
        let ghost tdv = tokens.deep_view();
        proof {
            assert(v@.take(i + 1).drop_last() =~= v@.take(i as int));
            assert(v@.take(i + 1).last() == v@[i as int]);
        }
        let c = v[i];
        if c == ',' {
            tokens.push(Vec::new());
            proof {
                assert(tokens.deep_view() =~~= tdv.push(Seq::<char>::empty()));
            }
        } else {
            let mut last = match tokens.pop() {
                Some(t) => t,
                None => Vec::new(),
            };
            last.push(c);
            tokens.push(last);
            proof {
                assert(tokens.deep_view() =~~= tdv.update(tdv.len() - 1, tdv.last().push(c)));
            }
        }
        i = i + 1;
    }
    proof {
        assert(v@.take(v@.len() as int) =~= v@);
    }
    tokens
}

/// Removes every cursor marker from one cell.
#[verifier::loop_isolation(false)]
fn strip_cursor_exec(tok: &Vec<char>) -> (r: Vec<char>)
    ensures
        r@ == strip_cursor(tok@),
{
    let mut r: Vec<char> = Vec::new();
    let mut j: usize = 0;
    proof {
        assert(r@ =~= strip_cursor(tok@.take(0)));
    }
    while j < tok.len()
        invariant
            j <= tok@.len(),
            r@ == strip_cursor(tok@.take(j as int)),
        decreases tok@.len() - j,
    {
        proof {
            assert(tok@.take(j + 1).drop_last() =~= tok@.take(j as int));
            assert(tok@.take(j + 1).last() == tok@[j as int]);
        }
        let c = tok[j];
        if c != '|' {
            r.push(c);
        }
        j = j + 1;
    }
    proof {
        assert(tok@.take(tok@.len() as int) =~= tok@);
    }
    r
}

/// Whether one cell carries the cursor marker.
fn has_cursor(tok: &Vec<char>) -> (r: bool)
    ensures
        r == tok@.contains('|'),
{
    let mut j: usize = 0;
    while j < tok.len()
        invariant
            j <= tok@.len(),
            forall|jj: int| 0 <= jj < j ==> tok@[jj] != '|',
        decreases tok@.len() - j,
    {
        if tok[j] == '|' {
            return true;
        }
        j = j + 1;
    }
    false
}

/// Decodes a gradebook line into the catalog: cell `i` sets the grade of
/// record `i`, capped at the catalog length; a cell below 1 or malformed
/// leaves the record ungraded; the returned position is the last capped
/// cell carrying the cursor marker, or 0.
#[verifier::loop_isolation(false)]
pub fn parse_csv_file(list: &mut Vec<Pokemon>, csv: &str) -> (start_pos: usize)
    ensures
        ({
            let toks = split_commas(csv@);
            let m: int = if toks.len() <= old(list)@.len() {
                toks.len() as int
            } else {
                old(list)@.len() as int
            };
            &&& final(list)@.len() == old(list)@.len()
            &&& forall|i: int|
                0 <= i < m ==> (#[trigger] final(list)@[i])@ == (PokemonView {
                    grade: token_grade(toks[i]),
                    ..old(list)@[i]@
                })
            &&& forall|i: int| m <= i < old(list)@.len() ==> final(list)@[i] == old(list)@[i]
            &&& start_pos as int == spec_cursor(toks, m)
        }),
{
    let ghost orig = list@;
    let chars = str_chars(csv);
    let tokens = split_csv(&chars);
    let ghost toks = split_commas(csv@);
    let m: usize = if tokens.len() <= list.len() {
        tokens.len()
    } else {
        list.len()
    };
    let mut start_pos: usize = 0;
    let mut i: usize = 0;
    while i < m
        invariant
            i <= m,
            list@.len() == orig.len(),
            forall|j: int|
                0 <= j < i ==> (#[trigger] list@[j])@ == (PokemonView {
                    grade: token_grade(toks[j]),
                    ..orig[j]@
                }),
            forall|j: int| i <= j < orig.len() ==> (#[trigger] list@[j]) == orig[j],
            start_pos as int == spec_cursor(toks, i as int),
        decreases m - i,
    {
        let tok = &tokens[i];
        proof {
            assert(tok@ == tokens.deep_view()[i as int]);
        }
        if has_cursor(tok) {
            start_pos = i;
        }
        let stripped = strip_cursor_exec(tok);
        let g = parse_grade(&stripped);
        let mut p = list.remove(i);
        p.grade = if g >= 1 {
            Some(g)
        } else {
            None
        };
        list.insert(i, p);
        proof {
            assert(list@[i as int]@ =~= (PokemonView { grade: token_grade(toks[i as int]), ..orig[i as int]@ }));
        }
        i = i + 1;
    }
    start_pos
}

/// Encodes the catalog's grades as one comma-joined line in list order,
/// an ungraded record as 0, with the cursor marker prefixed to the cell
/// at the given 1-based position.
#[verifier::loop_isolation(false)]
pub fn get_gradebook_csv(list: &Vec<Pokemon>, slide_index: usize) -> (s: String)
    requires
        1 <= slide_index <= list@.len(),
        forall|i: int|
            0 <= i < list@.len() ==> ((#[trigger] list@[i])@.grade matches Some(g) ==> g >= 0),
    ensures
        s@ == spec_gradebook(list.deep_view(), slide_index - 1),
{
    let ghost dv = list.deep_view();
    let ghost cursor = slide_index - 1;
    let mut s = String::new();
    proof {
        reveal_strlit(",");
        reveal_strlit("|");
    }
    let mut i: usize = 0;
    while i < list.len()
        invariant
            i <= dv.len(),
            s@ == csv_prefix(dv, cursor, i as int),
        decreases dv.len() - i,
    {
        if i > 0 {
            s.append(",");
        }
        if i == slide_index - 1 {
            s.append("|");
        }
        let g: i32 = match list[i].grade {
            Some(g) => g,
            None => 0,
        };
        proof {
            assert(dv[i as int] == list@[i as int]@);
            assert(g as int == grade_or_zero(dv[i as int]));
        }
        append_dec(&mut s, g as u64);
        proof {
            let cell = (if i as int == cursor {
                seq!['|']
            } else {
                Seq::<char>::empty()
            }) + spec_dec(grade_or_zero(dv[i as int]));
            assert(s@ =~= csv_prefix(dv, cursor, i + 1)) by {
                if i == 0 {
                    assert(s@ =~= cell);
                } else {
                    assert(s@ =~= csv_prefix(dv, cursor, i as int) + seq![','] + cell);
                }
            }
        }
        i = i + 1;
    }
    s
}

} // verus!

//! Cursor-based reader over the ordered save lines.
//!
//! Each read operation has a spec mirror (`sp_*`) that maps the line
//! sequence and the cursor to the outcome the operation must produce; the
//! decoder's own specification is the composition of these mirrors.

use vstd::prelude::*;
use crate::errors::ParseError;
use crate::errors::ParseErrorKind;
use crate::floatval::FloatVal;
use crate::floatval::float_of_text;
use crate::floatval::parse_float_text;
use crate::numtext::i32_of_text;
use crate::numtext::parse_i32_text;
use crate::numtext::parse_u32_text;
use crate::numtext::spec_trim;
use crate::numtext::trim_str;
use crate::numtext::u32_of_text;
use crate::savefile::ItemStats;
use crate::savefile::LightworldStats;
use crate::savefile::Stats;

verus! {

/// The character view of every line.
pub open spec fn lines_view(v: Seq<String>) -> Seq<Seq<char>> {
    v.map_values(|s: String| s@)
}

/// Mirror of a raw line read: the line under the cursor, or a failure
/// carrying the cursor when no line is left.
pub open spec fn sp_string(lines: Seq<Seq<char>>, cur: int) -> Result<(Seq<char>, int), ParseError> {
    if 0 <= cur < lines.len() {
        Ok((lines[cur], cur + 1))
    } else {
        Err(ParseError { kind: ParseErrorKind::EofUnexpected, line: Some(cur as usize) })
    }
}

/// Mirror of a signed integer read: the trimmed line as an `i32`, or
/// `IntParse` carrying the 1-based number of the offending line.
pub open spec fn sp_int(lines: Seq<Seq<char>>, cur: int) -> Result<(i32, int), ParseError> {
    match sp_string(lines, cur) {
        Ok((s, c2)) => match i32_of_text(spec_trim(s)) {
            Some(v) => Ok((v, c2)),
            None => Err(ParseError { kind: ParseErrorKind::IntParse, line: Some(c2 as usize) }),
        },
        Err(e) => Err(e),
    }
}

/// Mirror of an unsigned integer read.
pub open spec fn sp_uint(lines: Seq<Seq<char>>, cur: int) -> Result<(u32, int), ParseError> {
    match sp_string(lines, cur) {
        Ok((s, c2)) => match u32_of_text(spec_trim(s)) {
            Some(v) => Ok((v, c2)),
            None => Err(ParseError { kind: ParseErrorKind::IntParse, line: Some(c2 as usize) }),
        },
        Err(e) => Err(e),
    }
}

/// Mirror of a decimal fraction read.
pub open spec fn sp_float(lines: Seq<Seq<char>>, cur: int) -> Result<(FloatVal, int), ParseError> {
    match sp_string(lines, cur) {
        Ok((s, c2)) => match float_of_text(spec_trim(s)) {
            Some(v) => Ok((v, c2)),
            None => Err(
                ParseError { kind: ParseErrorKind::FloatParse, line: Some(c2 as usize) },
            ),
        },
        Err(e) => Err(e),
    }
}

/// Mirror of a boolean read: the integer read restricted to `0` and `1`.
pub open spec fn sp_bool(lines: Seq<Seq<char>>, cur: int) -> Result<(bool, int), ParseError> {
    match sp_int(lines, cur) {
        Ok((v, c2)) => if v == 0 {
            Ok((false, c2))
        } else if v == 1 {
            Ok((true, c2))
        } else {
            Err(ParseError { kind: ParseErrorKind::IntParse, line: Some(c2 as usize) })
        },
        Err(e) => Err(e),
    }
}

/// Mirror of the end-of-input check: every line consumed, or exactly one
/// empty line left.
pub open spec fn sp_eof(lines: Seq<Seq<char>>, cur: int) -> Result<(), ParseError> {
    if cur < lines.len() {
        if cur + 1 == lines.len() && lines[cur].len() == 0 {
            Ok(())
        } else {
            Err(ParseError { kind: ParseErrorKind::EofExpected, line: Some(cur as usize) })
        }
    } else {
        Ok(())
    }
}

/// Stateful reader: the chapter selecting the schema, the full line
/// sequence, and a zero-based read cursor.
pub struct SaveParser<'a> {
    chapter: i32,
    save_lines: &'a Vec<String>,
    current_line: usize,
}

impl<'a> SaveParser<'a> {
    /// The character view of the lines being read.
    pub closed spec fn slines(&self) -> Seq<Seq<char>> {
        lines_view(self.save_lines@)
    }

    /// The read cursor.
    pub closed spec fn cursor(&self) -> int {
        self.current_line as int
    }

    /// The chapter the reader was opened with.
    pub closed spec fn spec_chapter(&self) -> i32 {
        self.chapter
    }

    /// The cursor never runs past one position after the end.
    pub open spec fn wf(&self) -> bool {
        0 <= self.cursor() <= self.slines().len()
    }

    /// The current read position, as a zero-based line index.
    pub fn position(&self) -> (r: usize)
        ensures
            r == self.cursor(),
    {
        self.current_line
    }

    /// Opens a reader over `save_lines` at the first line.
    pub fn new(chapter: i32, save_lines: &'a Vec<String>) -> (r: SaveParser<'a>)
        ensures
            r.slines() == lines_view(save_lines@),
            r.cursor() == 0,
            r.spec_chapter() == chapter,
            r.wf(),
    {
        SaveParser { chapter, save_lines, current_line: 0 }
    }

    /// Reads the line under the cursor, advancing past it.
    pub fn parse_string(&mut self) -> (r: Result<String, ParseError>)
        requires
            old(self).wf(),
        ensures
            final(self).slines() == old(self).slines(),
            final(self).spec_chapter() == old(self).spec_chapter(),
            final(self).wf(),
            match sp_string(old(self).slines(), old(self).cursor()) {
                Ok((s, c2)) => r matches Ok(t) && t@ == s && final(self).cursor() == c2,
                Err(e) => r == Err::<String, ParseError>(e) && final(self).cursor() == old(
                    self,
                ).cursor(),
            },
    {
        if self.current_line >= self.save_lines.len() {
            return Err(ParseError::new(ParseErrorKind::EofUnexpected, Some(self.current_line)));
        }
        let line = self.save_lines[self.current_line].clone();
        self.current_line = self.current_line + 1;
        Ok(line)
    }

    /// Reads the trimmed line under the cursor as a signed integer.
    pub fn parse_int(&mut self) -> (r: Result<i32, ParseError>)
        requires
            old(self).wf(),
        ensures
            final(self).slines() == old(self).slines(),
            final(self).spec_chapter() == old(self).spec_chapter(),
            final(self).wf(),
            match sp_int(old(self).slines(), old(self).cursor()) {
                Ok((v, c2)) => r == Ok::<i32, ParseError>(v) && final(self).cursor() == c2,
                Err(e) => r == Err::<i32, ParseError>(e),
            },
    {
        match self.parse_string() {
            Ok(line) => {
                let t = trim_str(line.as_str());
                match parse_i32_text(t) {
                    Some(v) => Ok(v),
                    None => Err(
                        ParseError::new(ParseErrorKind::IntParse, Some(self.current_line)),
                    ),
                }
            },
            Err(e) => Err(e),
        }
    }

    /// Reads the trimmed line under the cursor as an unsigned integer.
    pub fn parse_uint(&mut self) -> (r: Result<u32, ParseError>)
        requires
            old(self).wf(),
        ensures
            final(self).slines() == old(self).slines(),
            final(self).spec_chapter() == old(self).spec_chapter(),
            final(self).wf(),
            match sp_uint(old(self).slines(), old(self).cursor()) {
                Ok((v, c2)) => r == Ok::<u32, ParseError>(v) && final(self).cursor() == c2,
                Err(e) => r == Err::<u32, ParseError>(e),
            },
    {
        match self.parse_string() {
            Ok(line) => {
                let t = trim_str(line.as_str());
                match parse_u32_text(t) {
                    Some(v) => Ok(v),
                    None => Err(
                        ParseError::new(ParseErrorKind::IntParse, Some(self.current_line)),
                    ),
                }
            },
            Err(e) => Err(e),
        }
    }

    /// Reads the trimmed line under the cursor as a decimal fraction.
    pub fn parse_float(&mut self) -> (r: Result<FloatVal, ParseError>)
        requires
            old(self).wf(),
        ensures
            final(self).slines() == old(self).slines(),
            final(self).spec_chapter() == old(self).spec_chapter(),
            final(self).wf(),
            match sp_float(old(self).slines(), old(self).cursor()) {
                Ok((v, c2)) => r == Ok::<FloatVal, ParseError>(v) && final(self).cursor() == c2,
                Err(e) => r == Err::<FloatVal, ParseError>(e),
            },
    {
        match self.parse_string() {
            Ok(line) => {
                let t = trim_str(line.as_str());
                match parse_float_text(t) {
                    Some(v) => Ok(v),
                    None => Err(
                        ParseError::new(ParseErrorKind::FloatParse, Some(self.current_line)),
                    ),
                }
            },
            Err(e) => Err(e),
        }
    }

    /// Reads a boolean: the integer under the cursor restricted to `0`/`1`.
    pub fn parse_bool(&mut self) -> (r: Result<bool, ParseError>)
        requires
            old(self).wf(),
        ensures
            final(self).slines() == old(self).slines(),
            final(self).spec_chapter() == old(self).spec_chapter(),
            final(self).wf(),
            match sp_bool(old(self).slines(), old(self).cursor()) {
                Ok((v, c2)) => r == Ok::<bool, ParseError>(v) && final(self).cursor() == c2,
                Err(e) => r == Err::<bool, ParseError>(e),
            },
    {
        match self.parse_int() {
            Ok(0) => Ok(false),
            Ok(1) => Ok(true),
            Ok(_) => Err(ParseError::new(ParseErrorKind::IntParse, Some(self.current_line))),
            Err(e) => Err(e),
        }
    }

    /// Succeeds when every line is consumed, tolerating one trailing empty
    /// line.
    pub fn expect_eof(&self) -> (r: Result<(), ParseError>)
        requires
            self.wf(),
        ensures
            r == sp_eof(self.slines(), self.cursor()),
    {
        if self.current_line < self.save_lines.len() {
            let last = &self.save_lines[self.current_line];
            if self.current_line + 1 == self.save_lines.len() && last.as_str().is_empty() {
                return Ok(());
            }
            Err(ParseError::new(ParseErrorKind::EofExpected, Some(self.current_line)))
        } else {
            Ok(())
        }
    }
}

} // verus!

verus! {

/// Prefixes already-read values onto the outcome of the remaining reads.
pub open spec fn sp_prepend<T>(pre: Seq<T>, r: Result<(Seq<T>, int), ParseError>) -> Result<
    (Seq<T>, int),
    ParseError,
> {
    match r {
        Ok((vs, c)) => Ok((pre + vs, c)),
        Err(e) => Err(e),
    }
}

/// Mirror of `n` consecutive integer reads.
pub open spec fn sp_ints(lines: Seq<Seq<char>>, cur: int, n: nat) -> Result<
    (Seq<i32>, int),
    ParseError,
>
    decreases n,
{
    if n == 0 {
        Ok((Seq::<i32>::empty(), cur))
    } else {
        match sp_int(lines, cur) {
            Ok((v, c2)) => sp_prepend(seq![v], sp_ints(lines, c2, (n - 1) as nat)),
            Err(e) => Err(e),
        }
    }
}

/// Mirror of `n` consecutive fraction reads.
pub open spec fn sp_floats(lines: Seq<Seq<char>>, cur: int, n: nat) -> Result<
    (Seq<FloatVal>, int),
    ParseError,
>
    decreases n,
{
    if n == 0 {
        Ok((Seq::<FloatVal>::empty(), cur))
    } else {
        match sp_float(lines, cur) {
            Ok((v, c2)) => sp_prepend(seq![v], sp_floats(lines, c2, (n - 1) as nat)),
            Err(e) => Err(e),
        }
    }
}

/// Mirror of `n` consecutive raw line reads.
pub open spec fn sp_strings(lines: Seq<Seq<char>>, cur: int, n: nat) -> Result<
    (Seq<Seq<char>>, int),
    ParseError,
>
    decreases n,
{
    if n == 0 {
        Ok((Seq::<Seq<char>>::empty(), cur))
    } else {
        match sp_string(lines, cur) {
            Ok((v, c2)) => sp_prepend(seq![v], sp_strings(lines, c2, (n - 1) as nat)),
            Err(e) => Err(e),
        }
    }
}

impl<'a> SaveParser<'a> {
    /// Reads `n` consecutive integers.
    pub fn parse_ints(&mut self, n: usize) -> (r: Result<Vec<i32>, ParseError>)
        requires
            old(self).wf(),
        ensures
            final(self).slines() == old(self).slines(),
            final(self).spec_chapter() == old(self).spec_chapter(),
            final(self).wf(),
            match sp_ints(old(self).slines(), old(self).cursor(), n as nat) {
                Ok((vs, c2)) => r matches Ok(v) && v@ == vs && vs.len() == n
                    && final(self).cursor() == c2,
                Err(e) => r == Err::<Vec<i32>, ParseError>(e),
            },
    {
        let ghost l0 = self.slines();
        let ghost c0 = self.cursor();
        let mut out: Vec<i32> = Vec::new();
        let mut i: usize = 0;
        while i < n
            invariant
                0 <= i <= n,
                self.wf(),
                l0 == old(self).slines(),
                c0 == old(self).cursor(),
                self.slines() == l0,
                self.spec_chapter() == old(self).spec_chapter(),
                out@.len() == i,
                sp_ints(l0, c0, n as nat) == sp_prepend(
                    out@,
                    sp_ints(l0, self.cursor(), (n - i) as nat),
                ),
            decreases n - i,
        {
            let ghost rest = sp_ints(l0, self.cursor(), (n - i) as nat);
            match self.parse_int() {
                Ok(v) => {
                    proof {
                        let tail = sp_ints(l0, self.cursor(), (n - i - 1) as nat);
                        assert(rest == sp_prepend(seq![v], tail));
                        match tail {
                            Ok((vs, c)) => {
                                assert(out@.push(v) + vs =~= out@ + (seq![v] + vs));
                            },
                            Err(_) => {},
                        }
                    }
                    out.push(v);
                },
                Err(e) => {
                    proof {
                        assert(sp_ints(l0, c0, n as nat) == Err::<(Seq<i32>, int), ParseError>(
                            e,
                        ));
                    }
                    return Err(e);
                },
            }
            i = i + 1;
        }
        proof {
            assert(sp_ints(l0, self.cursor(), 0) == Ok::<(Seq<i32>, int), ParseError>(
                (Seq::<i32>::empty(), self.cursor()),
            ));
            assert(out@ + Seq::<i32>::empty() =~= out@);
        }
        Ok(out)
    }

    /// Reads `n` consecutive fraction values.
    pub fn parse_floats(&mut self, n: usize) -> (r: Result<Vec<FloatVal>, ParseError>)
        requires
            old(self).wf(),
        ensures
            final(self).slines() == old(self).slines(),
            final(self).spec_chapter() == old(self).spec_chapter(),
            final(self).wf(),
            match sp_floats(old(self).slines(), old(self).cursor(), n as nat) {
                Ok((vs, c2)) => r matches Ok(v) && v@ == vs && vs.len() == n
                    && final(self).cursor() == c2,
                Err(e) => r == Err::<Vec<FloatVal>, ParseError>(e),
            },
    {
        let ghost l0 = self.slines();
        let ghost c0 = self.cursor();
        let mut out: Vec<FloatVal> = Vec::new();
        let mut i: usize = 0;
        while i < n
            invariant
                0 <= i <= n,
                self.wf(),
                l0 == old(self).slines(),
                c0 == old(self).cursor(),
                self.slines() == l0,
                self.spec_chapter() == old(self).spec_chapter(),
                out@.len() == i,
                sp_floats(l0, c0, n as nat) == sp_prepend(
                    out@,
                    sp_floats(l0, self.cursor(), (n - i) as nat),
                ),
            decreases n - i,
        {
            let ghost rest = sp_floats(l0, self.cursor(), (n - i) as nat);
            match self.parse_float() {
                Ok(v) => {
                    proof {
                        let tail = sp_floats(l0, self.cursor(), (n - i - 1) as nat);
                        assert(rest == sp_prepend(seq![v], tail));
                        match tail {
                            Ok((vs, c)) => {
                                assert(out@.push(v) + vs =~= out@ + (seq![v] + vs));
                            },
                            Err(_) => {},
                        }
                    }
                    out.push(v);
                },
                Err(e) => {
                    proof {
                        assert(sp_floats(l0, c0, n as nat) == Err::<
                            (Seq<FloatVal>, int),
                            ParseError,
                        >(e));
                    }
                    return Err(e);
                },
            }
            i = i + 1;
        }
        proof {
            assert(sp_floats(l0, self.cursor(), 0) == Ok::<(Seq<FloatVal>, int), ParseError>(
                (Seq::<FloatVal>::empty(), self.cursor()),
            ));
            assert(out@ + Seq::<FloatVal>::empty() =~= out@);
        }
        Ok(out)
    }

    /// Reads `n` consecutive raw lines.
    pub fn parse_strings(&mut self, n: usize) -> (r: Result<Vec<String>, ParseError>)
        requires
            old(self).wf(),
        ensures
            final(self).slines() == old(self).slines(),
            final(self).spec_chapter() == old(self).spec_chapter(),
            final(self).wf(),
            match sp_strings(old(self).slines(), old(self).cursor(), n as nat) {
                Ok((vs, c2)) => r matches Ok(v) && lines_view(v@) == vs && v@.len() == n
                    && final(self).cursor() == c2,
                Err(e) => r == Err::<Vec<String>, ParseError>(e),
            },
    {
        let ghost l0 = self.slines();
        let ghost c0 = self.cursor();
        let mut out: Vec<String> = Vec::new();
        let mut i: usize = 0;
        while i < n
            invariant
                0 <= i <= n,
                self.wf(),
                l0 == old(self).slines(),
                c0 == old(self).cursor(),
                self.slines() == l0,
                self.spec_chapter() == old(self).spec_chapter(),
                out@.len() == i,
                sp_strings(l0, c0, n as nat) == sp_prepend(
                    lines_view(out@),
                    sp_strings(l0, self.cursor(), (n - i) as nat),
                ),
            decreases n - i,
        {
            let ghost rest = sp_strings(l0, self.cursor(), (n - i) as nat);
            match self.parse_string() {
                Ok(v) => {
                    proof {
                        let tail = sp_strings(l0, self.cursor(), (n - i - 1) as nat);
                        assert(rest == sp_prepend(seq![v@], tail));
                        assert(lines_view(out@.push(v)) =~= lines_view(out@).push(v@));
                        match tail {
                            Ok((vs, c)) => {
                                assert(lines_view(out@).push(v@) + vs =~= lines_view(out@) + (
                                seq![v@] + vs));
                            },
                            Err(_) => {},
                        }
                    }
                    out.push(v);
                },
                Err(e) => {
                    proof {
                        assert(sp_strings(l0, c0, n as nat) == Err::<
                            (Seq<Seq<char>>, int),
                            ParseError,
                        >(e));
                    }
                    return Err(e);
                },
            }
            i = i + 1;
        }
        proof {
            assert(sp_strings(l0, self.cursor(), 0) == Ok::<(Seq<Seq<char>>, int), ParseError>(
                (Seq::<Seq<char>>::empty(), self.cursor()),
            ));
            assert(lines_view(out@) + Seq::<Seq<char>>::empty() =~= lines_view(out@));
        }
        Ok(out)
    }
}

} // verus!

verus! {

/// Builds an item-stat block from its eight leading integers.
pub open spec fn item_stats_make(vs: Seq<i32>, elem: i32, amt: FloatVal) -> ItemStats {
    ItemStats {
        attack: vs[0],
        defense: vs[1],
        magic: vs[2],
        bolts: vs[3],
        graze_amount: vs[4],
        graze_size: vs[5],
        bolts_speed: vs[6],
        item_special: vs[7],
        item_element: elem,
        item_element_amount: amt,
    }
}

/// Mirror of one item-stat block: eight integers, then, for chapter 2 and
/// up, the element and its amount; chapter 1 leaves both zero.
pub open spec fn sp_item_stats(ch: i32, lines: Seq<Seq<char>>, cur: int) -> Result<
    (ItemStats, int),
    ParseError,
> {
    match sp_ints(lines, cur, 8) {
        Ok((vs, c)) => if ch >= 2 {
            match sp_int(lines, c) {
                Ok((elem, c2)) => match sp_float(lines, c2) {
                    Ok((amt, c3)) => Ok((item_stats_make(vs, elem, amt), c3)),
                    Err(e) => Err(e),
                },
                Err(e) => Err(e),
            }
        } else {
            Ok((item_stats_make(vs, 0, crate::floatval::spec_float_zero()), c))
        },
        Err(e) => Err(e),
    }
}

/// Mirror of `n` consecutive item-stat blocks.
pub open spec fn sp_item_stats_vec(ch: i32, lines: Seq<Seq<char>>, cur: int, n: nat) -> Result<
    (Seq<ItemStats>, int),
    ParseError,
>
    decreases n,
{
    if n == 0 {
        Ok((Seq::<ItemStats>::empty(), cur))
    } else {
        match sp_item_stats(ch, lines, cur) {
            Ok((v, c2)) => sp_prepend(seq![v], sp_item_stats_vec(ch, lines, c2, (n - 1) as nat)),
            Err(e) => Err(e),
        }
    }
}

/// Builds a stat block from its nine leading integers and the later parts.
pub open spec fn stats_make(
    vs: Seq<i32>,
    style: Seq<char>,
    its: Seq<ItemStats>,
    spells: Seq<i32>,
) -> crate::savefile::SpecStats {
    crate::savefile::SpecStats {
        hp: vs[0],
        max_hp: vs[1],
        attack: vs[2],
        defense: vs[3],
        magic: vs[4],
        guts: vs[5],
        weapon: vs[6],
        armor1: vs[7],
        armor2: vs[8],
        weapon_style: style,
        item_stats: its,
        spells,
    }
}

/// Mirror of one full stat block: nine integers, the raw weapon-style line,
/// four item-stat blocks, and twelve spell slots.
pub open spec fn sp_stats(ch: i32, lines: Seq<Seq<char>>, cur: int) -> Result<
    (crate::savefile::SpecStats, int),
    ParseError,
> {
    match sp_ints(lines, cur, 9) {
        Ok((vs, c)) => match sp_string(lines, c) {
            Ok((style, c2)) => match sp_item_stats_vec(ch, lines, c2, 4) {
                Ok((its, c3)) => match sp_ints(lines, c3, 12) {
                    Ok((spells, c4)) => Ok((stats_make(vs, style, its, spells), c4)),
                    Err(e) => Err(e),
                },
                Err(e) => Err(e),
            },
            Err(e) => Err(e),
        },
        Err(e) => Err(e),
    }
}

/// Mirror of `n` consecutive stat blocks.
pub open spec fn sp_stats_vec(ch: i32, lines: Seq<Seq<char>>, cur: int, n: nat) -> Result<
    (Seq<crate::savefile::SpecStats>, int),
    ParseError,
>
    decreases n,
{
    if n == 0 {
        Ok((Seq::<crate::savefile::SpecStats>::empty(), cur))
    } else {
        match sp_stats(ch, lines, cur) {
            Ok((v, c2)) => sp_prepend(seq![v], sp_stats_vec(ch, lines, c2, (n - 1) as nat)),
            Err(e) => Err(e),
        }
    }
}

/// Mirror of the light-world stat block: eleven integers.
pub open spec fn sp_lightworld(lines: Seq<Seq<char>>, cur: int) -> Result<
    (LightworldStats, int),
    ParseError,
> {
    match sp_ints(lines, cur, 11) {
        Ok((vs, c)) => Ok(
            (
                LightworldStats {
                    weapon: vs[0],
                    armor: vs[1],
                    xp: vs[2],
                    lv: vs[3],
                    gold: vs[4],
                    hp: vs[5],
                    max_hp: vs[6],
                    attack: vs[7],
                    defense: vs[8],
                    wstrength: vs[9],
                    adef: vs[10],
                },
                c,
            ),
        ),
        Err(e) => Err(e),
    }
}

impl<'a> SaveParser<'a> {
    /// Reads one item-stat block under the chapter's schema.
    pub fn parse_item_stats(&mut self) -> (r: Result<ItemStats, ParseError>)
        requires
            old(self).wf(),
        ensures
            final(self).slines() == old(self).slines(),
            final(self).spec_chapter() == old(self).spec_chapter(),
            final(self).wf(),
            match sp_item_stats(old(self).spec_chapter(), old(self).slines(), old(self).cursor()) {
                Ok((v, c2)) => r matches Ok(st) && st == v && final(self).cursor() == c2,
                Err(e) => r == Err::<ItemStats, ParseError>(e),
            },
    {
        let vs = match self.parse_ints(8) {
            Ok(v) => v,
            Err(e) => {
                return Err(e);
            },
        };
        if self.chapter >= 2 {
            let elem = match self.parse_int() {
                Ok(v) => v,
                Err(e) => {
                    return Err(e);
                },
            };
            let amt = match self.parse_float() {
                Ok(v) => v,
                Err(e) => {
                    return Err(e);
                },
            };
            Ok(
                ItemStats {
                    attack: vs[0],
                    defense: vs[1],
                    magic: vs[2],
                    bolts: vs[3],
                    graze_amount: vs[4],
                    graze_size: vs[5],
                    bolts_speed: vs[6],
                    item_special: vs[7],
                    item_element: elem,
                    item_element_amount: amt,
                },
            )
        } else {
            Ok(
                ItemStats {
                    attack: vs[0],
                    defense: vs[1],
                    magic: vs[2],
                    bolts: vs[3],
                    graze_amount: vs[4],
                    graze_size: vs[5],
                    bolts_speed: vs[6],
                    item_special: vs[7],
                    item_element: 0,
                    item_element_amount: FloatVal::zero(),
                },
            )
        }
    }

    /// Reads one full stat block under the chapter's schema.
    #[verifier::loop_isolation(false)]
    pub fn parse_stats(&mut self) -> (r: Result<Stats, ParseError>)
        requires
            old(self).wf(),
        ensures
            final(self).slines() == old(self).slines(),
            final(self).spec_chapter() == old(self).spec_chapter(),
            final(self).wf(),
            match sp_stats(old(self).spec_chapter(), old(self).slines(), old(self).cursor()) {
                Ok((v, c2)) => r matches Ok(st) && st@ == v && st.wf() && final(self).cursor()
                    == c2,
                Err(e) => r == Err::<Stats, ParseError>(e),
            },
    {
        let ghost l0 = self.slines();
        let ghost ch = self.spec_chapter();
        let vs = match self.parse_ints(9) {
            Ok(v) => v,
            Err(e) => {
                return Err(e);
            },
        };
        let style = match self.parse_string() {
            Ok(v) => v,
            Err(e) => {
                return Err(e);
            },
        };
        let mut its: Vec<ItemStats> = Vec::new();
        let ghost c_its = self.cursor();
        let mut i: usize = 0;
        while i < 4
            invariant
                0 <= i <= 4,
                self.wf(),
                self.slines() == l0,
                self.spec_chapter() == ch,
                its@.len() == i,
                sp_item_stats_vec(ch, l0, c_its, 4) == sp_prepend(
                    its@,
                    sp_item_stats_vec(ch, l0, self.cursor(), (4 - i) as nat),
                ),
            decreases 4 - i,
        {
            let ghost rest = sp_item_stats_vec(ch, l0, self.cursor(), (4 - i) as nat);
            match self.parse_item_stats() {
                Ok(v) => {
                    proof {
                        let tail = sp_item_stats_vec(ch, l0, self.cursor(), (4 - i - 1) as nat);
                        assert(rest == sp_prepend(seq![v], tail));
                        match tail {
                            Ok((rs, c)) => {
                                assert(its@.push(v) + rs =~= its@ + (seq![v] + rs));
                            },
                            Err(_) => {},
                        }
                    }
                    its.push(v);
                },
                Err(e) => {
                    return Err(e);
                },
            }
            i = i + 1;
        }
        proof {
            assert(its@ + Seq::<ItemStats>::empty() =~= its@);
        }
        let spells = match self.parse_ints(12) {
            Ok(v) => v,
            Err(e) => {
                return Err(e);
            },
        };
        Ok(
            Stats {
                hp: vs[0],
                max_hp: vs[1],
                attack: vs[2],
                defense: vs[3],
                magic: vs[4],
                guts: vs[5],
                weapon: vs[6],
                armor1: vs[7],
                armor2: vs[8],
                weapon_style: style,
                item_stats: its,
                spells,
            },
        )
    }

    /// Reads the light-world stat block.
    pub fn parse_lightworld_stats(&mut self) -> (r: Result<LightworldStats, ParseError>)
        requires
            old(self).wf(),
        ensures
            final(self).slines() == old(self).slines(),
            final(self).spec_chapter() == old(self).spec_chapter(),
            final(self).wf(),
            match sp_lightworld(old(self).slines(), old(self).cursor()) {
                Ok((v, c2)) => r == Ok::<LightworldStats, ParseError>(v) && final(self).cursor()
                    == c2,
                Err(e) => r == Err::<LightworldStats, ParseError>(e),
            },
    {
        let vs = match self.parse_ints(11) {
            Ok(v) => v,
            Err(e) => {
                return Err(e);
            },
        };
        Ok(
            LightworldStats {
                weapon: vs[0],
                armor: vs[1],
                xp: vs[2],
                lv: vs[3],
                gold: vs[4],
                hp: vs[5],
                max_hp: vs[6],
                attack: vs[7],
                defense: vs[8],
                wstrength: vs[9],
                adef: vs[10],
            },
        )
    }
}

} // verus!

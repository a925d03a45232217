//! Custom font files.
//!
//! Plain text, one glyph per line: the ASCII code (32 to 126) and five
//! column bytes in hexadecimal (an optional `0x` prefix each). Blank lines
//! and lines starting with `#` are ignored. Characters that the file does
//! not define keep the built-in glyph; a malformed line rejects the file.
//!
//! ```text
//! # comment
//! 32 00 00 00 00 00
//! 33 00 00 5F 00 00
//! ```

use vstd::prelude::*;

use crate::renderer::font::FALLBACK_FONT_DATA;
use crate::utils::chars::{
    char_rows, has_prefix, lines, slice_chars, split_lines, split_words, starts_with, str_chars,
    string_from_chars, trim, trim_chars, words,
};
use crate::utils::number::{dec, parse_unsigned, parse_unsigned_chars, push_all, push_dec};
use crate::utils::AppError;

verus! {

/// What one line of a font file says.
pub enum FontEntry {
    /// A blank or comment line.
    Skip,
    /// The glyph of the character with this code.
    Glyph(nat, Seq<u8>),
    /// A malformed line.
    Invalid,
}

/// The word without a leading `0x`.
pub open spec fn strip_hex_prefix(w: Seq<char>) -> Seq<char> {
    if has_prefix(w, seq!['0', 'x']) {
        w.skip(2)
    } else {
        w
    }
}

/// A column byte: hexadecimal with an optional `0x` prefix, at most 0xFF.
pub open spec fn hex_byte(w: Seq<char>) -> Option<nat> {
    parse_unsigned(strip_hex_prefix(w), 16, 255)
}

/// What the line `line` of a font file says.
pub open spec fn font_entry(line: Seq<char>) -> FontEntry {
    let t = trim(line);
    if t.len() == 0 || t[0] == '#' {
        FontEntry::Skip
    } else {
        let ws = words(t);
        if ws.len() < 6 {
            FontEntry::Invalid
        } else {
            let code = parse_unsigned(ws[0], 10, usize::MAX as nat);
            if code is Some && 32 <= code->0 <= 126 && (forall|c: int|
                0 <= c < 5 ==> #[trigger] hex_byte(ws[1 + c]) is Some) {
                FontEntry::Glyph(code->0, Seq::new(5, |c: int| hex_byte(ws[1 + c])->0 as u8))
            } else {
                FontEntry::Invalid
            }
        }
    }
}

/// No line of the file is malformed.
pub open spec fn font_valid(ls: Seq<Seq<char>>) -> bool {
    forall|k: int| 0 <= k < ls.len() ==> !(#[trigger] font_entry(ls[k]) is Invalid)
}

/// The glyph that the last line defining `code` gives it.
pub open spec fn last_glyph(ls: Seq<Seq<char>>, code: nat) -> Option<Seq<u8>>
    decreases ls.len(),
{
    if ls.len() == 0 {
        None
    } else {
        match font_entry(ls.last()) {
            FontEntry::Glyph(c, b) => if c == code {
                Some(b)
            } else {
                last_glyph(ls.drop_last(), code)
            },
            _ => last_glyph(ls.drop_last(), code),
        }
    }
}

/// Byte `i` of the font table built from the lines `ls`: the file's
/// glyph where it defines the character, the built-in glyph elsewhere.
pub open spec fn font_byte(ls: Seq<Seq<char>>, i: int) -> u8 {
    match last_glyph(ls, (i / 5 + 32) as nat) {
        Some(b) => b[i % 5],
        None => FALLBACK_FONT_DATA@[i],
    }
}

fn push_text(out: &mut Vec<char>, s: &str)
    ensures
        final(out)@ == old(out)@ + s@,
{
    let v = str_chars(s);
    push_all(out, &v);
}

/// Message of an error on line `line_no` of a font file: the line number,
/// then `what` went wrong.
pub open spec fn line_error_text(line_no: nat, what: Seq<char>) -> Seq<char> {
    "字体文件第 "@ + dec(line_no) + " 行"@ + what
}

fn line_error(line_no: usize, what: &str) -> (r: AppError)
    ensures
        match r {
            AppError::Config(m) => m@ == line_error_text(line_no as nat, what@),
            _ => false,
        },
{
    let mut m: Vec<char> = Vec::new();
    push_text(&mut m, "字体文件第 ");
    push_dec(&mut m, line_no as u64);
    push_text(&mut m, " 行");
    push_text(&mut m, what);
    proof {
        assert(m@ =~= line_error_text(line_no as nat, what@));
    }
    AppError::Config(string_from_chars(&m))
}

/// What one line of a font file says: `Ok(None)` for a blank or comment
/// line, the character code and its five column bytes for a glyph line,
/// and an error naming line `line_no` for a malformed line.
pub fn parse_font_line(line: &[char], line_no: usize) -> (r: Result<Option<(usize, [u8; 5])>, AppError>)
    ensures
        match r {
            Ok(None) => font_entry(line@) is Skip,
            Ok(Some((c, b))) => font_entry(line@) == FontEntry::Glyph(c as nat, b@),
            Err(e) => font_entry(line@) is Invalid && e is Config,
        },
{
    let t = trim_chars(line);
    if t.len() == 0 || t[0] == '#' {
        return Ok(None);
    }
    let ws = split_words(&t);
    if ws.len() < 6 {
        return Err(line_error(line_no, " 格式错误: 需要 <字符码> <5字节十六进制>"));
    }
    let code = match parse_unsigned_chars(&ws[0], 10, usize::MAX as u64) {
        Some(c) => c,
        None => return Err(line_error(line_no, " 字符码无效")),
    };
    if code < 32 || code > 126 {
        return Err(line_error(line_no, " 字符码超出范围 (32-126)"));
    }
    let prefix = vec!['0', 'x'];
    proof {
        assert(prefix@ =~= seq!['0', 'x']);
    }
    let mut bytes = [0u8; 5];
    let mut col: usize = 0;
    while col < 5
        invariant
            col <= 5,
            ws@.len() >= 6,
            prefix@ == seq!['0', 'x'],
            char_rows(ws@) == words(trim(line@)),
            trim(line@).len() > 0 && trim(line@)[0] != '#',
            parse_unsigned(ws@[0]@, 10, usize::MAX as nat) == Some(code as nat),
            32 <= code <= 126,
            forall|c: int| 0 <= c < col ==> #[trigger] hex_byte(ws@[1 + c]@) is Some && bytes@[c]
                == hex_byte(ws@[1 + c]@)->0 as u8,
        decreases 5 - col,
    {
        let w = &ws[1 + col];
        let h = if starts_with(w, &prefix) {
            slice_chars(w, 2, w.len())
        } else {
            slice_chars(w, 0, w.len())
        };
        proof {
            if has_prefix(w@, seq!['0', 'x']) {
                assert(w@.skip(2) =~= w@.subrange(2, w@.len() as int));
            } else {
                assert(w@ =~= w@.subrange(0, w@.len() as int));
            }
            assert(h@ == strip_hex_prefix(w@));
        }
        let b = match parse_unsigned_chars(&h, 16, 255) {
            Some(b) => b,
            None => {
                proof {
                    let wsv = words(trim(line@));
                    assert(char_rows(ws@)[1 + col as int] == ws@[1 + col as int]@);
                    assert(!(hex_byte(wsv[1 + col as int]) is Some));
                    assert(char_rows(ws@)[0] == ws@[0]@);
                }
                return Err(line_error(line_no, " 列: 无效十六进制"));
            },
        };
        bytes[col] = b as u8;
        proof {
            assert(char_rows(ws@)[1 + col as int] == ws@[1 + col as int]@);
        }
        col = col + 1;
    }
    proof {
        let wsv = words(trim(line@));
        assert forall|c: int| 0 <= c < 5 implies #[trigger] hex_byte(wsv[1 + c]) is Some by {
            assert(char_rows(ws@)[1 + c] == ws@[1 + c]@);
        }
        assert(char_rows(ws@)[0] == ws@[0]@);
        assert(bytes@ =~= Seq::new(5, |c: int| hex_byte(wsv[1 + c])->0 as u8)) by {
            assert forall|c: int| 0 <= c < 5 implies bytes@[c] == hex_byte(wsv[1 + c])->0 as u8 by {
                assert(char_rows(ws@)[1 + c] == ws@[1 + c]@);
            }
        }
    }
    Ok(Some((code as usize, bytes)))
}

fn put_glyph(data: &mut [u8; 475], idx: usize, bytes: &[u8; 5])
    requires
        idx < 95,
    ensures
        forall|i: int|
            0 <= i < 475 ==> #[trigger] final(data)@[i] == if i / 5 == idx {
                bytes@[i % 5]
            } else {
                old(data)@[i]
            },
{
    let base = idx * 5;
    let mut col: usize = 0;
    while col < 5
        invariant
            col <= 5,
            idx < 95,
            base == idx * 5,
            forall|i: int|
                0 <= i < 475 ==> #[trigger] data@[i] == if base <= i < base + col {
                    bytes@[i - base]
                } else {
                    old(data)@[i]
                },
        decreases 5 - col,
    {
        data[base + col] = bytes[col];
        col = col + 1;
    }
    assert forall|i: int| 0 <= i < 475 implies #[trigger] data@[i] == if i / 5 == idx {
        bytes@[i % 5]
    } else {
        old(data)@[i]
    } by {
        if base <= i < base + 5 {
            assert(i / 5 == idx);
            assert(i % 5 == i - base);
        } else {
            assert(i / 5 != idx);
        }
    }
}

/// The built-in 5x7 font.
pub fn default_font_data() -> (r: [u8; 475])
    ensures
        r@ == FALLBACK_FONT_DATA@,
{
    FALLBACK_FONT_DATA
}

/// Parses the text of a font file into a 475-byte table (95 printable
/// characters, 5 column bytes each). A malformed line is a configuration
/// error; characters that no line defines keep the built-in glyph, and a
/// later line for a character replaces an earlier one.
#[verifier::rlimit(40)]
pub fn parse_font_file(content: &str) -> (r: Result<[u8; 475], AppError>)
    ensures
        match r {
            Ok(d) => font_valid(lines(content@)) && forall|i: int|
                0 <= i < 475 ==> d@[i] == font_byte(lines(content@), i),
            Err(e) => !font_valid(lines(content@)) && e is Config,
        },
{
    let v = str_chars(content);
    let ls = split_lines(&v);
    let ghost rows = char_rows(ls@);
    let mut data = [0u8; 475];
    let mut parsed = [false; 95];
    let mut k: usize = 0;
    while k < ls.len()
        invariant
            k <= ls@.len(),
            rows == char_rows(ls@),
            rows == lines(content@),
            forall|m: int| 0 <= m < k ==> !(#[trigger] font_entry(rows[m]) is Invalid),
            forall|c: int|
                0 <= c < 95 ==> (parsed@[c] <==> #[trigger] last_glyph(rows.take(k as int), (c
                    + 32) as nat) is Some),
            forall|i: int|
                0 <= i < 475 && parsed@[i / 5] ==> data@[i] == #[trigger] last_glyph(
                    rows.take(k as int),
                    (i / 5 + 32) as nat,
                )->0[i % 5],
        decreases ls@.len() - k,
    {
        let ghost before = rows.take(k as int);
        let ghost after = rows.take(k + 1);
        proof {
            assert(after.drop_last() =~= before);
            assert(after.last() == ls@[k as int]@);
        }
        match parse_font_line(&ls[k], k + 1) {
            Ok(None) => {
                proof {
                    assert forall|c: int| 0 <= c < 95 implies #[trigger] last_glyph(after, (c + 32) as nat)
                        == last_glyph(before, (c + 32) as nat) by {}
                }
            },
            Ok(Some((code, bytes))) => {
                let idx = code - 32;
                let ghost d0 = data@;
                put_glyph(&mut data, idx, &bytes);
                parsed[idx] = true;
                proof {
                    assert forall|c: int| 0 <= c < 95 && c != idx implies #[trigger] last_glyph(
                        after,
                        (c + 32) as nat,
                    ) == last_glyph(before, (c + 32) as nat) by {}
                    assert(last_glyph(after, (idx + 32) as nat) == Some(bytes@));
                    assert forall|i: int| 0 <= i < 475 && parsed@[i / 5] implies data@[i]
                        == #[trigger] last_glyph(after, (i / 5 + 32) as nat)->0[i % 5] by {
                        if i / 5 != idx {
                            assert(last_glyph(after, (i / 5 + 32) as nat) == last_glyph(
                                before,
                                (i / 5 + 32) as nat,
                            ));
                        }
                    }
                }
            },
            Err(e) => {
                proof {
                    assert(font_entry(rows[k as int]) is Invalid);
                }
                return Err(e);
            },
        }
        k = k + 1;
    }
    proof {
        assert(rows.take(k as int) =~= rows);
    }
    let defaults = default_font_data();
    let mut c: usize = 0;
    while c < 95
        invariant
            c <= 95,
            defaults@ == FALLBACK_FONT_DATA@,
            data@.len() == 475,
            forall|i: int|
                0 <= i < 475 && parsed@[i / 5] ==> data@[i] == #[trigger] last_glyph(
                    rows,
                    (i / 5 + 32) as nat,
                )->0[i % 5],
            forall|i: int|
                0 <= i < 5 * c && !parsed@[i / 5] ==> data@[i] == #[trigger] FALLBACK_FONT_DATA@[i],
        decreases 95 - c,
    {
        if !parsed[c] {
            let mut g = [0u8; 5];
            let mut col: usize = 0;
            while col < 5
                invariant
                    col <= 5,
                    c < 95,
                    defaults@ == FALLBACK_FONT_DATA@,
                    forall|m: int| 0 <= m < col ==> #[trigger] g@[m] == FALLBACK_FONT_DATA@[c * 5 + m],
                decreases 5 - col,
            {
                g[col] = defaults[c * 5 + col];
                col = col + 1;
            }
            put_glyph(&mut data, c, &g);
        }
        proof {
            assert forall|i: int| 0 <= i < 5 * (c + 1) && !parsed@[i / 5] implies data@[i]
                == #[trigger] FALLBACK_FONT_DATA@[i] by {
                if i >= 5 * c {
                    assert(i / 5 == c);
                    assert(i == c * 5 + i % 5);
                }
            }
        }
        c = c + 1;
    }
    proof {
        assert forall|i: int| 0 <= i < 475 implies data@[i] == font_byte(lines(content@), i) by {
            if parsed@[i / 5] {
            } else {
                assert(FALLBACK_FONT_DATA@[i] == FALLBACK_FONT_DATA@[i]);
            }
        }
    }
    Ok(data)
}

proof fn lemma_no_glyph(ls: Seq<Seq<char>>, code: nat)
    requires
        forall|k: int| 0 <= k < ls.len() ==> #[trigger] font_entry(ls[k]) is Skip,
    ensures
        last_glyph(ls, code) is None,
    decreases ls.len(),
{
    if ls.len() > 0 {
        assert(font_entry(ls[ls.len() - 1]) is Skip);
        assert forall|k: int| 0 <= k < ls.drop_last().len() implies #[trigger] font_entry(
            ls.drop_last()[k],
        ) is Skip by {
            assert(ls.drop_last()[k] == ls[k]);
        }
        lemma_no_glyph(ls.drop_last(), code);
    }
}

/// A font file of blank and comment lines only is valid and gives the
/// built-in font.
pub proof fn law_blank_font_file_is_default(ls: Seq<Seq<char>>, i: int)
    requires
        forall|k: int| 0 <= k < ls.len() ==> #[trigger] font_entry(ls[k]) is Skip,
        0 <= i < 475,
    ensures
        font_valid(ls),
        font_byte(ls, i) == FALLBACK_FONT_DATA@[i],
{
    lemma_no_glyph(ls, (i / 5 + 32) as nat);
}

/// The last line that defines a character decides its glyph: after a line
/// defining `code` with bytes `b`, the five bytes of `code` are `b`,
/// whatever came before.
pub proof fn law_last_line_wins(ls: Seq<Seq<char>>, line: Seq<char>, code: nat, b: Seq<u8>, i: int)
    requires
        font_entry(line) == FontEntry::Glyph(code, b),
        0 <= i < 475,
        i / 5 + 32 == code,
    ensures
        font_byte(ls.push(line), i) == b[i % 5],
{
    assert(ls.push(line).drop_last() =~= ls);
}

} // verus!

//! The computing parts of batch processing: which file extensions count as
//! images, the naming of output files, and the batch result records. The
//! caller does the walking, decoding, encoding and progress transport.

use vstd::prelude::*;
use vstd::string::StringExecFns;

verus! {

/// Outcome of one batch run, as reported to the caller.
pub struct ProcessResult {
    pub success: bool,
    pub message: String,
    pub output_files: Vec<String>,
    pub total_images: usize,
}

/// ASCII lowercasing of one byte; other bytes pass through unchanged.
pub open spec fn spec_ascii_lower(c: u8) -> u8 {
    if 65 <= c <= 90 {
        (c + 32) as u8
    } else {
        c
    }
}

/// A byte string, ASCII-lowercased.
pub open spec fn spec_lower_bytes(s: Seq<u8>) -> Seq<u8> {
    s.map_values(|c: u8| spec_ascii_lower(c))
}

/// The extensions accepted as images, compared case-insensitively:
/// `png`, `jpg`, `jpeg`, `webp`, `bmp` (given here as their byte values).
pub open spec fn spec_is_image_extension(s: Seq<u8>) -> bool {
    ||| spec_lower_bytes(s) == seq![112u8, 110u8, 103u8]  // png
    ||| spec_lower_bytes(s) == seq![106u8, 112u8, 103u8]  // jpg
    ||| spec_lower_bytes(s) == seq![106u8, 112u8, 101u8, 103u8]  // jpeg
    ||| spec_lower_bytes(s) == seq![119u8, 101u8, 98u8, 112u8]  // webp
    ||| spec_lower_bytes(s) == seq![98u8, 109u8, 112u8]  // bmp
}

/// ASCII lowercasing of one byte.
pub fn ascii_lower(c: u8) -> (r: u8)
    ensures
        r == spec_ascii_lower(c),
{
    if 65 <= c && c <= 90 {
        c + 32
    } else {
        c
    }
}

/// Decides whether a file extension (as bytes) names an image format the
/// batch accepts; the comparison ignores ASCII case.
pub fn is_image_extension(ext: &Vec<u8>) -> (r: bool)
    ensures
        r == spec_is_image_extension(ext@),
{
    proof {
        assert(spec_lower_bytes(ext@).len() == ext@.len());
    }
    if ext.len() == 3 {
        let a = ascii_lower(ext[0]);
        let b = ascii_lower(ext[1]);
        let c = ascii_lower(ext[2]);
        let hit = (a == 112 && b == 110 && c == 103) || (a == 106 && b == 112 && c == 103) || (a
            == 98 && b == 109 && c == 112);
        proof {
            if hit {
                if a == 112 {
                    assert(spec_lower_bytes(ext@) =~= seq![112u8, 110u8, 103u8]);
                } else if a == 106 {
                    assert(spec_lower_bytes(ext@) =~= seq![106u8, 112u8, 103u8]);
                } else {
                    assert(spec_lower_bytes(ext@) =~= seq![98u8, 109u8, 112u8]);
                }
            } else {
                assert(spec_lower_bytes(ext@)[0] == a && spec_lower_bytes(ext@)[1] == b
                    && spec_lower_bytes(ext@)[2] == c);
            }
        }
        hit
    } else if ext.len() == 4 {
        let a = ascii_lower(ext[0]);
        let b = ascii_lower(ext[1]);
        let c = ascii_lower(ext[2]);
        let d = ascii_lower(ext[3]);
        let hit = (a == 106 && b == 112 && c == 101 && d == 103) || (a == 119 && b == 101 && c
            == 98 && d == 112);
        proof {
            if hit {
                if a == 106 {
                    assert(spec_lower_bytes(ext@) =~= seq![106u8, 112u8, 101u8, 103u8]);
                } else {
                    assert(spec_lower_bytes(ext@) =~= seq![119u8, 101u8, 98u8, 112u8]);
                }
            } else {
                assert(spec_lower_bytes(ext@)[0] == a && spec_lower_bytes(ext@)[1] == b
                    && spec_lower_bytes(ext@)[2] == c && spec_lower_bytes(ext@)[3] == d);
            }
        }
        hit
    } else {
        false
    }
}

/// The decimal digit characters of `n`, most significant first, no leading
/// zeros (a single `'0'` for zero).
pub open spec fn spec_decimal(n: nat) -> Seq<char>
    decreases n,
{
    if n < 10 {
        seq![spec_digit_char(n as int)]
    } else {
        spec_decimal(n / 10) + seq![spec_digit_char((n % 10) as int)]
    }
}

/// The character for one decimal digit.
pub open spec fn spec_digit_char(d: int) -> char {
    if d == 0 {
        '0'
    } else if d == 1 {
        '1'
    } else if d == 2 {
        '2'
    } else if d == 3 {
        '3'
    } else if d == 4 {
        '4'
    } else if d == 5 {
        '5'
    } else if d == 6 {
        '6'
    } else if d == 7 {
        '7'
    } else if d == 8 {
        '8'
    } else {
        '9'
    }
}

/// The one-character string for a decimal digit.
fn digit_str(d: u8) -> (r: &'static str)
    requires
        d < 10,
    ensures
        r@ == seq![spec_digit_char(d as int)],
{
    proof {
        reveal_strlit("0");
        reveal_strlit("1");
        reveal_strlit("2");
        reveal_strlit("3");
        reveal_strlit("4");
        reveal_strlit("5");
        reveal_strlit("6");
        reveal_strlit("7");
        reveal_strlit("8");
        reveal_strlit("9");
    }
    if d == 0 {
        "0"
    } else if d == 1 {
        "1"
    } else if d == 2 {
        "2"
    } else if d == 3 {
        "3"
    } else if d == 4 {
        "4"
    } else if d == 5 {
        "5"
    } else if d == 6 {
        "6"
    } else if d == 7 {
        "7"
    } else if d == 8 {
        "8"
    } else {
        "9"
    }
}

/// Appends the decimal digits of `n` to `s`.
fn push_decimal(s: &mut String, n: u64)
    ensures
        final(s)@ == old(s)@ + spec_decimal(n as nat),
    decreases n,
{
    if n >= 10 {
        push_decimal(s, n / 10);
        let d: u8 = (n % 10) as u8;
        s.append(digit_str(d));
        proof {
            assert(s@ =~= old(s)@ + spec_decimal(n as nat));
        }
    } else {
        let d: u8 = n as u8;
        s.append(digit_str(d));
        proof {
            assert(s@ =~= old(s)@ + spec_decimal(n as nat));
        }
    }
}

/// The name of the `n`-th output file: `output_` followed by the counter,
/// zero-padded to at least three digits, followed by `.png`.
pub open spec fn spec_output_filename(n: nat) -> Seq<char> {
    "output_"@ + spec_padded3(n) + ".png"@
}

/// The counter's digits, zero-padded on the left to at least three.
pub open spec fn spec_padded3(n: nat) -> Seq<char> {
    if n < 10 {
        seq!['0', '0'] + spec_decimal(n)
    } else if n < 100 {
        seq!['0'] + spec_decimal(n)
    } else {
        spec_decimal(n)
    }
}

/// Builds the output file name for the running counter, shared across the
/// whole batch: `output_001.png`, `output_002.png`, ...
pub fn output_filename(counter: usize) -> (r: String)
    ensures
        r@ == spec_output_filename(counter as nat),
{
    let mut s: String = "output_".to_owned();
    if counter < 10 {
        proof {
            reveal_strlit("00");
        }
        s.append("00");
        proof {
            assert("00"@ =~= seq!['0', '0']);
        }
    } else if counter < 100 {
        proof {
            reveal_strlit("0");
        }
        s.append("0");
        proof {
            assert("0"@ =~= seq!['0']);
        }
    }
    push_decimal(&mut s, counter as u64);
    s.append(".png");
    proof {
        assert(s@ =~= spec_output_filename(counter as nat));
    }
    s
}

/// The message of a successful batch: `Successfully processed <n> images`.
pub open spec fn spec_success_message(n: nat) -> Seq<char> {
    "Successfully processed "@ + spec_decimal(n) + " images"@
}

/// The result record of a batch that found no images: a failure with an
/// empty output list and a zero count, not an error.
pub fn no_images_result() -> (r: ProcessResult)
    ensures
        !r.success,
        r.message@ == "No images found in input folder"@,
        r.output_files@.len() == 0,
        r.total_images == 0,
{
    ProcessResult {
        success: false,
        message: "No images found in input folder".to_owned(),
        output_files: Vec::new(),
        total_images: 0,
    }
}

/// The result record of a batch that processed every image.
pub fn success_result(output_files: Vec<String>, total_images: usize) -> (r: ProcessResult)
    ensures
        r.success,
        r.message@ == spec_success_message(total_images as nat),
        r.output_files@ == output_files@,
        r.total_images == total_images,
{
    let mut message: String = "Successfully processed ".to_owned();
    push_decimal(&mut message, total_images as u64);
    message.append(" images");
    proof {
        assert(message@ =~= spec_success_message(total_images as nat));
    }
    ProcessResult { success: true, message, output_files, total_images }
}

} // verus!

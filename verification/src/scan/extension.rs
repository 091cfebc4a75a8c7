use vstd::prelude::*;
use vstd::string::*;

verus! {

/// A letter in lower case; any other character as it is.
pub open spec fn lowered(c: char) -> char {
    if 'A' <= c <= 'Z' {
        ((c as u32) + 32) as char
    } else {
        c
    }
}

/// A word with its letters in lower case.
pub open spec fn folded(word: Seq<char>) -> Seq<char> {
    word.map_values(|c: char| lowered(c))
}

/// The extensions of the files whose tags the decoder is asked for.
pub open spec fn tagged_extension(extension: Seq<char>) -> bool {
    let ext = folded(extension);
    ||| ext == "mp3"@
    ||| ext == "flac"@
    ||| ext == "ogg"@
    ||| ext == "opus"@
    ||| ext == "m4a"@
    ||| ext == "mp4"@
    ||| ext == "wav"@
    ||| ext == "aiff"@
    ||| ext == "aac"@
    ||| ext == "ape"@
    ||| ext == "wv"@
    ||| ext == "mpc"@
}

/// The extensions of the files that count as audio.
pub open spec fn sound_extension(extension: Seq<char>) -> bool {
    let ext = folded(extension);
    ||| ext == "mp3"@
    ||| ext == "flac"@
    ||| ext == "ogg"@
    ||| ext == "opus"@
    ||| ext == "m4a"@
    ||| ext == "wav"@
    ||| ext == "aiff"@
    ||| ext == "aac"@
    ||| ext == "wma"@
    ||| ext == "mid"@
}

fn same_letter(c: char, letter: char) -> (same: bool)
    ensures
        same == (lowered(c) == letter),
{
    if 'A' <= c && c <= 'Z' {
        c as u32 + 32 == letter as u32
    } else {
        c == letter
    }
}

/// Whether `extension` is `word`, whatever the case of its letters.
fn spells(extension: &str, word: &str) -> (same: bool)
    ensures
        same == (folded(extension@) == word@),
{
    let n = extension.unicode_len();
    if n != word.unicode_len() {
        return false;
    }
    let mut i: usize = 0;
    while i < n
        invariant
            i <= n,
            n == extension@.len(),
            n == word@.len(),
            forall|j: int| 0 <= j < i ==> folded(extension@)[j] == word@[j],
        decreases n - i,
    {
        if !same_letter(extension.get_char(i), word.get_char(i)) {
            assert(folded(extension@)[i as int] != word@[i as int]);
            return false;
        }
        i = i + 1;
    }
    assert(folded(extension@) =~= word@);
    true
}

/// Whether a file with this extension is likely to carry tags that the
/// decoder reads.
pub fn check_extension_for_tag_decoder(inp: &str) -> (likely: bool)
    ensures
        likely == tagged_extension(inp@),
{
    spells(inp, "mp3") || spells(inp, "flac") || spells(inp, "ogg") || spells(inp, "opus")
        || spells(inp, "m4a") || spells(inp, "mp4") || spells(inp, "wav") || spells(inp, "aiff")
        || spells(inp, "aac") || spells(inp, "ape") || spells(inp, "wv") || spells(inp, "mpc")
}

/// Whether a file with this extension is likely to be audio.
pub fn check_extension_for_sound_decoder(inp: &str) -> (likely: bool)
    ensures
        likely == sound_extension(inp@),
{
    spells(inp, "mp3") || spells(inp, "flac") || spells(inp, "ogg") || spells(inp, "opus")
        || spells(inp, "m4a") || spells(inp, "wav") || spells(inp, "aiff") || spells(inp, "aac")
        || spells(inp, "wma") || spells(inp, "mid")
}

} // verus!

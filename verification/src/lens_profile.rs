//! Lens profiles: the dimensions of a calibration, and the names profiles are shown by.
use vstd::prelude::*;
use crate::text::{replaced, replace_all, lemma_replaced_skips_prefix, lemma_replaced_keeps_suffix, lemma_replaced_short, lemma_replaced_mismatch, lemma_replaced_whole, lemma_replaced_absent_char, lemma_replaced_between, chars_of, string_of, lemma_replaced_removes, trim, trim_chars, push_chars, push_seq, push_dec, dec_text, digit_char};
use crate::xml_events::same_text;

verus! {

#[derive(Clone, Copy, Debug, Default, PartialEq, Eq, Structural)]
pub struct Dimensions {
    pub w: usize,
    pub h: usize,
}

/// The size class of a calibration frame, by its width (and height for 1440p).
pub open spec fn size_class(w: usize, h: usize) -> &'static str {
    if w >= 8000 {
        "8k"
    } else if w >= 6000 {
        "6k"
    } else if w >= 5000 {
        "5k"
    } else if w > 4000 {
        "C4k"
    } else if w >= 3840 {
        "4k"
    } else if w >= 2700 {
        "2.7k"
    } else if w >= 2500 {
        "2.5k"
    } else if w >= 2000 {
        "2k"
    } else if w == 1920 && h == 1440 {
        "1440p"
    } else if w >= 1920 {
        "1080p"
    } else if w >= 1280 {
        "720p"
    } else if w >= 640 {
        "480p"
    } else {
        ""
    }
}

impl Dimensions {
    /// The size class of a calibration frame of these dimensions, as profile names
    /// write it (see `size_class`).
    pub fn size_str(&self) -> (r: &'static str)
        ensures
            r == size_class(self.w, self.h),
    {
        let w = self.w;
        let h = self.h;
        if w >= 8000 {
            "8k"
        } else if w >= 6000 {
            "6k"
        } else if w >= 5000 {
            "5k"
        } else if w > 4000 {
            "C4k"
        } else if w >= 3840 {
            "4k"
        } else if w >= 2700 {
            "2.7k"
        } else if w >= 2500 {
            "2.5k"
        } else if w >= 2000 {
            "2k"
        } else if w == 1920 && h == 1440 {
            "1440p"
        } else if w >= 1920 {
            "1080p"
        } else if w >= 1280 {
            "720p"
        } else if w >= 640 {
            "480p"
        } else {
            ""
        }
    }
}


/// A profile's name with the usual noise of file names taken out: the `.json`
/// extension, aspect-ratio and resolution tokens (`4:3`, `16by9`, `2.7K`, `4K`, ...),
/// and underscores turned into spaces, in that order.
pub open spec fn cleaned_name(name: Seq<char>) -> Seq<char> {
    let s = replaced(name, ".json"@, ""@);
    let s = replaced(s, "4_3"@, ""@);
    let s = replaced(s, "4:3"@, ""@);
    let s = replaced(s, "4by3"@, ""@);
    let s = replaced(s, "16:9"@, ""@);
    let s = replaced(s, "169"@, ""@);
    let s = replaced(s, "16_9"@, ""@);
    let s = replaced(s, "16*9"@, ""@);
    let s = replaced(s, "16/9"@, ""@);
    let s = replaced(s, "16by9"@, ""@);
    let s = replaced(s, "2_7K"@, ""@);
    let s = replaced(s, "2,7K"@, ""@);
    let s = replaced(s, "2.7K"@, ""@);
    let s = replaced(s, "4K"@, ""@);
    let s = replaced(s, "5K"@, ""@);
    replaced(s, "_"@, " "@)
}

/// Takes the usual noise of file names out of a profile's name (see
/// `cleaned_name`).
pub fn cleanup_name(name: String) -> (r: String)
    ensures
        r@ == cleaned_name(name@),
{
    proof {
        reveal_strlit(".json");
        reveal_strlit("4_3");
        reveal_strlit("4:3");
        reveal_strlit("4by3");
        reveal_strlit("16:9");
        reveal_strlit("169");
        reveal_strlit("16_9");
        reveal_strlit("16*9");
        reveal_strlit("16/9");
        reveal_strlit("16by9");
        reveal_strlit("2_7K");
        reveal_strlit("2,7K");
        reveal_strlit("2.7K");
        reveal_strlit("4K");
        reveal_strlit("5K");
        reveal_strlit("_");
    }
    let s = chars_of(name.as_str());
    let s = replace_all(s.as_slice(), ".json", "");
    let s = replace_all(s.as_slice(), "4_3", "");
    let s = replace_all(s.as_slice(), "4:3", "");
    let s = replace_all(s.as_slice(), "4by3", "");
    let s = replace_all(s.as_slice(), "16:9", "");
    let s = replace_all(s.as_slice(), "169", "");
    let s = replace_all(s.as_slice(), "16_9", "");
    let s = replace_all(s.as_slice(), "16*9", "");
    let s = replace_all(s.as_slice(), "16/9", "");
    let s = replace_all(s.as_slice(), "16by9", "");
    let s = replace_all(s.as_slice(), "2_7K", "");
    let s = replace_all(s.as_slice(), "2,7K", "");
    let s = replace_all(s.as_slice(), "2.7K", "");
    let s = replace_all(s.as_slice(), "4K", "");
    let s = replace_all(s.as_slice(), "5K", "");
    let s = replace_all(s.as_slice(), "_", " ");
    string_of(s.as_slice())
}

/// `s` with each occurrence of `pat` replaced by `rep`; `s` itself for an empty
/// pattern replaced by nothing.
pub open spec fn without(s: Seq<char>, pat: Seq<char>) -> Seq<char> {
    if pat.len() == 0 {
        s
    } else {
        replaced(s, pat, ""@)
    }
}

/// A camera setting with the frame size taken out: the dimensions `{w}x{h}`, the
/// height `{h}p`, the aspect ratio as the profile names it, the size class, and the
/// tokens `1080`, `2160`, `C4K` and `UHD`, in that order.
pub open spec fn setting_without_frame_size(setting: Seq<char>, w: usize, h: usize, aspect_ratio: Seq<char>) -> Seq<char> {
    let s = replaced(setting, dec_text(w as nat) + "x"@ + dec_text(h as nat), ""@);
    let s = replaced(s, dec_text(h as nat) + "p"@, ""@);
    let s = without(s, aspect_ratio);
    let s = without(s, size_class(w, h)@);
    let s = replaced(s, "1080"@, ""@);
    let s = replaced(s, "2160"@, ""@);
    let s = replaced(s, "C4K"@, ""@);
    replaced(s, "UHD"@, ""@)
}

fn remove_text(s: &[char], pat: &str) -> (r: Vec<char>)
    ensures
        r@ == without(s@, pat@),
{
    if pat.is_empty() {
        let mut v: Vec<char> = Vec::new();
        push_seq(&mut v, s);
        assert(v@ =~= s@);
        v
    } else {
        replace_all(s, pat, "")
    }
}

/// Takes the frame size of a calibration out of a camera setting (see
/// `setting_without_frame_size`), given the calibration's dimensions and the aspect
/// ratio that the profile names.
pub fn setting_without_size(setting: &str, dims: Dimensions, aspect_ratio: &str) -> (r: String)
    ensures
        r@ == setting_without_frame_size(setting@, dims.w, dims.h, aspect_ratio@),
{
    proof {
        reveal_strlit("x");
        reveal_strlit("p");
        reveal_strlit("1080");
        reveal_strlit("2160");
        reveal_strlit("C4K");
        reveal_strlit("UHD");
        lemma_dec_text_len(dims.w as nat);
        lemma_dec_text_len(dims.h as nat);
    }
    let mut wxh: Vec<char> = Vec::new();
    push_dec(&mut wxh, dims.w);
    push_chars(&mut wxh, "x");
    push_dec(&mut wxh, dims.h);
    let wxh = string_of(wxh.as_slice());
    let mut hp: Vec<char> = Vec::new();
    push_dec(&mut hp, dims.h);
    push_chars(&mut hp, "p");
    let hp = string_of(hp.as_slice());
    let s = chars_of(setting);
    let s = replace_all(s.as_slice(), wxh.as_str(), "");
    let s = replace_all(s.as_slice(), hp.as_str(), "");
    let s = remove_text(s.as_slice(), aspect_ratio);
    let s = remove_text(s.as_slice(), dims.size_str());
    let s = replace_all(s.as_slice(), "1080", "");
    let s = replace_all(s.as_slice(), "2160", "");
    let s = replace_all(s.as_slice(), "C4K", "");
    let s = replace_all(s.as_slice(), "UHD", "");
    string_of(s.as_slice())
}

/// A cleaned-up name holds no underscore.
pub proof fn law_cleaned_name_has_no_underscore(name: Seq<char>)
    ensures
        !cleaned_name(name).contains('_'),
{
    reveal_strlit("_");
    reveal_strlit(" ");
    assert("_"@ =~= seq!['_']);
    assert(!" "@.contains('_')) by {
        if " "@.contains('_') {
            let k = choose|k: int| 0 <= k < " "@.len() && " "@[k] == '_';
            assert(" "@[0] == ' ');
        }
    }
    let s = replaced(name, ".json"@, ""@);
    let s = replaced(s, "4_3"@, ""@);
    let s = replaced(s, "4:3"@, ""@);
    let s = replaced(s, "4by3"@, ""@);
    let s = replaced(s, "16:9"@, ""@);
    let s = replaced(s, "169"@, ""@);
    let s = replaced(s, "16_9"@, ""@);
    let s = replaced(s, "16*9"@, ""@);
    let s = replaced(s, "16/9"@, ""@);
    let s = replaced(s, "16by9"@, ""@);
    let s = replaced(s, "2_7K"@, ""@);
    let s = replaced(s, "2,7K"@, ""@);
    let s = replaced(s, "2.7K"@, ""@);
    let s = replaced(s, "4K"@, ""@);
    let s = replaced(s, "5K"@, ""@);
    lemma_replaced_removes(s, '_', " "@);
}


/// The ASCII characters of `s`, in order.
pub open spec fn ascii_only(s: Seq<char>) -> Seq<char>
    decreases s.len(),
{
    if s.len() == 0 {
        Seq::empty()
    } else if (s.last() as u32) < 128 {
        ascii_only(s.drop_last()).push(s.last())
    } else {
        ascii_only(s.drop_last())
    }
}

/// The file name (without extension) that a profile named `name` is stored under:
/// its ASCII characters, line breaks and the characters that file systems refuse taken
/// out (`|`, `*` and `:` becoming `_`), trimmed.
pub open spec fn file_stem_of(name: Seq<char>) -> Seq<char> {
    let s = ascii_only(name);
    let s = replaced(s, "\n"@, ""@);
    let s = replaced(s, "|"@, "_"@);
    let s = replaced(s, "*"@, "_"@);
    let s = replaced(s, ":"@, "_"@);
    let s = replaced(s, "<"@, ""@);
    let s = replaced(s, "\""@, ""@);
    let s = replaced(s, ">"@, ""@);
    let s = replaced(s, "/"@, ""@);
    let s = replaced(s, "\\"@, ""@);
    trim(s)
}

/// The file name (without extension) that a profile named `name` is stored under
/// when the profile database is tidied (see `file_stem_of`).
pub fn profile_file_stem(name: &str) -> (r: String)
    ensures
        r@ == file_stem_of(name@),
{
    proof {
        reveal_strlit("\n");
        reveal_strlit("|");
        reveal_strlit("*");
        reveal_strlit(":");
        reveal_strlit("<");
        reveal_strlit("\"");
        reveal_strlit(">");
        reveal_strlit("/");
        reveal_strlit("\\");
    }
    let v = chars_of(name);
    let mut a: Vec<char> = Vec::new();
    let mut i: usize = 0;
    while i < v.len()
        invariant
            i <= v@.len(),
            a@ == ascii_only(v@.take(i as int)),
        decreases v@.len() - i,
    {
        assert(v@.take(i + 1).drop_last() =~= v@.take(i as int));
        if (v[i] as u32) < 128 {
            a.push(v[i]);
        }
        i = i + 1;
    }
    assert(v@.take(v@.len() as int) =~= v@);
    let s = replace_all(a.as_slice(), "\n", "");
    let s = replace_all(s.as_slice(), "|", "_");
    let s = replace_all(s.as_slice(), "*", "_");
    let s = replace_all(s.as_slice(), ":", "_");
    let s = replace_all(s.as_slice(), "<", "");
    let s = replace_all(s.as_slice(), "\"", "");
    let s = replace_all(s.as_slice(), ">", "");
    let s = replace_all(s.as_slice(), "/", "");
    let s = replace_all(s.as_slice(), "\\", "");
    string_of(trim_chars(s.as_slice()).as_slice())
}

/// The name of the file that holds a profile stored under `stem`.
pub open spec fn json_file(stem: Seq<char>) -> Seq<char> {
    stem + ".json"@
}

/// `stem` with ` - ` and the number `i` after it, as a file name.
pub open spec fn numbered_file(stem: Seq<char>, i: nat) -> Seq<char> {
    stem + " - "@ + dec_text(i) + ".json"@
}

pub open spec fn all_ascii(s: Seq<char>) -> bool {
    forall|i: int| 0 <= i < s.len() ==> (#[trigger] s[i] as u32) < 128
}

pub open spec fn names_view(names: Seq<String>) -> Seq<Seq<char>> {
    names.map_values(|n: String| n@)
}

/// The stem a profile takes where its plain file name is taken: the author's name
/// after it, where the author is named in ASCII.
pub open spec fn authored_stem(stem: Seq<char>, author: Seq<char>, taken: Seq<Seq<char>>) -> Seq<char> {
    if all_ascii(author) && author.len() > 0 && taken.contains(json_file(stem)) {
        stem + " - "@ + author
    } else {
        stem
    }
}

/// `i` is the first number from 2 on that makes a free file name of `stem`.
pub open spec fn first_free_number(stem: Seq<char>, taken: Seq<Seq<char>>, i: nat) -> bool {
    &&& i >= 2
    &&& !taken.contains(numbered_file(stem, i))
    &&& forall|j: nat| 2 <= j < i ==> taken.contains(#[trigger] numbered_file(stem, j))
}

/// Whether the name `name` is among `taken`.
pub fn is_taken(taken: &Vec<String>, name: &str) -> (r: bool)
    ensures
        r == names_view(taken@).contains(name@),
{
    let mut i: usize = 0;
    while i < taken.len()
        invariant
            i <= taken@.len(),
            forall|j: int| 0 <= j < i ==> taken@[j]@ != name@,
        decreases taken@.len() - i,
    {
        if same_text(taken[i].as_str(), name) {
            assert(names_view(taken@)[i as int] == name@);
            return true;
        }
        i = i + 1;
    }
    proof {
        if names_view(taken@).contains(name@) {
            let k = choose|k: int| 0 <= k < names_view(taken@).len() && names_view(taken@)[k] == name@;
            assert(taken@[k]@ == name@);
        }
    }
    false
}

proof fn lemma_dec_text_len(n: nat)
    ensures
        dec_text(n).len() >= 1,
        n >= 10 ==> dec_text(n).len() >= 2,
    decreases n,
{
    if n >= 10 {
        lemma_dec_text_len(n / 10);
    }
}

proof fn lemma_dec_text_injective(a: nat, b: nat)
    requires
        dec_text(a) == dec_text(b),
    ensures
        a == b,
    decreases a,
{
    lemma_dec_text_len(a);
    lemma_dec_text_len(b);
    if a >= 10 && b >= 10 {
        assert(dec_text(a).drop_last() == dec_text(b).drop_last());
        assert(dec_text(a / 10).push(digit_char(a % 10)).drop_last() =~= dec_text(a / 10));
        assert(dec_text(b / 10).push(digit_char(b % 10)).drop_last() =~= dec_text(b / 10));
        lemma_dec_text_injective(a / 10, b / 10);
        assert(dec_text(a).last() == digit_char(a % 10));
        assert(dec_text(b).last() == digit_char(b % 10));
    } else if a < 10 && b < 10 {
        assert(dec_text(a)[0] == digit_char(a));
        assert(dec_text(b)[0] == digit_char(b));
    }
}

proof fn lemma_numbered_file_injective(stem: Seq<char>, a: nat, b: nat)
    requires
        numbered_file(stem, a) == numbered_file(stem, b),
    ensures
        a == b,
{
    reveal_strlit(" - ");
    reveal_strlit(".json");
    let x = numbered_file(stem, a);
    let y = numbered_file(stem, b);
    assert(" - "@.len() == 3);
    assert(".json"@.len() == 5);
    let from: int = stem.len() as int + 3;
    assert(x.len() == stem.len() + 3 + dec_text(a).len() + 5);
    assert(y.len() == stem.len() + 3 + dec_text(b).len() + 5);
    assert(dec_text(a).len() == dec_text(b).len());
    assert(x.subrange(from, from + dec_text(a).len()) =~= dec_text(a));
    assert(y.subrange(from, from + dec_text(b).len()) =~= dec_text(b));
    lemma_dec_text_injective(a, b);
}

fn all_ascii_text(s: &str) -> (r: bool)
    ensures
        r == all_ascii(s@),
{
    let v = chars_of(s);
    let mut i: usize = 0;
    while i < v.len()
        invariant
            i <= v@.len(),
            v@ == s@,
            forall|j: int| 0 <= j < i ==> (#[trigger] v@[j] as u32) < 128,
        decreases v@.len() - i,
    {
        if (v[i] as u32) >= 128 {
            return false;
        }
        i = i + 1;
    }
    true
}

fn file_name_of(stem: &[char]) -> (r: String)
    ensures
        r@ == json_file(stem@),
{
    let mut v: Vec<char> = Vec::new();
    push_seq(&mut v, stem);
    push_chars(&mut v, ".json");
    assert(v@ =~= json_file(stem@));
    string_of(v.as_slice())
}

fn numbered_file_name_of(stem: &[char], i: usize) -> (r: String)
    ensures
        r@ == numbered_file(stem@, i as nat),
{
    let mut v: Vec<char> = Vec::new();
    push_seq(&mut v, stem);
    push_chars(&mut v, " - ");
    push_dec(&mut v, i);
    push_chars(&mut v, ".json");
    assert(v@ =~= numbered_file(stem@, i as nat));
    string_of(v.as_slice())
}

/// The file name a profile is moved to when the profile database is tidied: the file
/// of its stem where that is the file it already is; else the file of its stem, with
/// the author's name added where that file is taken (and the author named in ASCII),
/// or, where that is taken too, with the first number from 2 on that gives a free
/// name. `taken` holds the names of the files that are there.
pub fn profile_file_name(stem: &str, calibrated_by: &str, old_name: &str, taken: &Vec<String>) -> (r: String)
    requires
        taken@.len() + 2 <= usize::MAX,
    ensures
        json_file(stem@) == old_name@ ==> r@ == json_file(stem@),
        json_file(stem@) != old_name@ && !names_view(taken@).contains(json_file(authored_stem(stem@, calibrated_by@, names_view(taken@))))
            ==> r@ == json_file(authored_stem(stem@, calibrated_by@, names_view(taken@))),
        json_file(stem@) != old_name@ && names_view(taken@).contains(json_file(authored_stem(stem@, calibrated_by@, names_view(taken@))))
            ==> exists|i: nat| first_free_number(authored_stem(stem@, calibrated_by@, names_view(taken@)), names_view(taken@), i)
                && r@ == #[trigger] numbered_file(authored_stem(stem@, calibrated_by@, names_view(taken@)), i),
{
    let ghost names = names_view(taken@);
    let s = chars_of(stem);
    let plain = file_name_of(s.as_slice());
    if same_text(plain.as_str(), old_name) {
        return plain;
    }
    let mut base: Vec<char> = Vec::new();
    push_seq(&mut base, s.as_slice());
    if all_ascii_text(calibrated_by) && !calibrated_by.is_empty() && is_taken(taken, plain.as_str()) {
        push_chars(&mut base, " - ");
        push_chars(&mut base, calibrated_by);
    }
    let ghost a = authored_stem(stem@, calibrated_by@, names);
    assert(base@ =~= a);
    let first = file_name_of(base.as_slice());
    if !is_taken(taken, first.as_str()) {
        return first;
    }
    let ghost mut seen: Set<Seq<char>> = Set::empty();
    let mut i: usize = 2;
    loop
        invariant
            names == names_view(taken@),
            a == authored_stem(stem@, calibrated_by@, names),
            json_file(stem@) != old_name@,
            names.contains(json_file(a)),
            base@ == a,
            taken@.len() + 2 <= usize::MAX,
            names.len() == taken@.len(),
            2 <= i,
            seen.finite(),
            seen.len() == i - 2,
            seen.subset_of(names.to_set()),
            forall|x: Seq<char>| seen.contains(x) ==> exists|j: nat| 2 <= j < i && x == #[trigger] numbered_file(a, j),
            forall|j: nat| 2 <= j < i ==> names.contains(#[trigger] numbered_file(a, j)),
        decreases taken@.len() + 2 - i,
    {
        let candidate = numbered_file_name_of(base.as_slice(), i);
        if !is_taken(taken, candidate.as_str()) {
            assert(first_free_number(a, names, i as nat));
            return candidate;
        }
        proof {
            let c = numbered_file(a, i as nat);
            if seen.contains(c) {
                let j = choose|j: nat| 2 <= j < i && c == #[trigger] numbered_file(a, j);
                lemma_numbered_file_injective(a, j, i as nat);
            }
            assert(names.to_set().contains(c));
            let grown = seen.insert(c);
            assert forall|x: Seq<char>| grown.contains(x) implies exists|j: nat| 2 <= j < i + 1 && x == #[trigger] numbered_file(a, j) by {
                if x == c {
                    assert(x == numbered_file(a, i as nat));
                } else {
                    let j = choose|j: nat| 2 <= j < i && x == #[trigger] numbered_file(a, j);
                    assert(x == numbered_file(a, j));
                }
            }
            seen = grown;
            vstd::set_lib::lemma_len_subset(seen, names.to_set());
            names.lemma_cardinality_of_set();
        }
        i = i + 1;
    }
}


/// A character of one of the noise tokens that `cleaned_name` takes out.
pub open spec fn noise_char(c: char) -> bool {
    c == '*' || c == ',' || c == '.' || c == '/' || c == '1' || c == '2' || c == '3' || c == '4' || c == '5' || c == '6' || c == '7' || c == '9' || c == ':' || c == 'K' || c == '_' || c == 'b' || c == 'j' || c == 'n' || c == 'o' || c == 's' || c == 'y'
}

/// A text that holds no character of any noise token.
pub open spec fn plain(s: Seq<char>) -> bool {
    forall|i: int| 0 <= i < s.len() ==> !noise_char(#[trigger] s[i])
}

/// The tokens that `cleaned_name` takes out, in the order it takes them out.
pub open spec fn noise_tokens() -> Seq<Seq<char>> {
    seq![".json"@, "4_3"@, "4:3"@, "4by3"@, "16:9"@, "169"@, "16_9"@, "16*9"@, "16/9"@, "16by9"@, "2_7K"@, "2,7K"@, "2.7K"@, "4K"@, "5K"@]
}

proof fn lemma_untouched(x: Seq<char>, pat: Seq<char>, rep: Seq<char>)
    requires
        pat.len() > 0,
        forall|i: int| 0 <= i < x.len() ==> #[trigger] x[i] != pat[0],
    ensures
        replaced(x, pat, rep) == x,
{
    lemma_replaced_skips_prefix(x, Seq::empty(), pat, rep);
    assert(x + Seq::<char>::empty() =~= x);
    assert(replaced(Seq::<char>::empty(), pat, rep) =~= Seq::<char>::empty());
}

/// Every character of every noise token is a noise character.
proof fn lemma_noise_patterns()
    ensures
        forall|j: int| 0 <= j < ".json"@.len() ==> noise_char(#[trigger] ".json"@[j]),
        forall|j: int| 0 <= j < "4_3"@.len() ==> noise_char(#[trigger] "4_3"@[j]),
        forall|j: int| 0 <= j < "4:3"@.len() ==> noise_char(#[trigger] "4:3"@[j]),
        forall|j: int| 0 <= j < "4by3"@.len() ==> noise_char(#[trigger] "4by3"@[j]),
        forall|j: int| 0 <= j < "16:9"@.len() ==> noise_char(#[trigger] "16:9"@[j]),
        forall|j: int| 0 <= j < "169"@.len() ==> noise_char(#[trigger] "169"@[j]),
        forall|j: int| 0 <= j < "16_9"@.len() ==> noise_char(#[trigger] "16_9"@[j]),
        forall|j: int| 0 <= j < "16*9"@.len() ==> noise_char(#[trigger] "16*9"@[j]),
        forall|j: int| 0 <= j < "16/9"@.len() ==> noise_char(#[trigger] "16/9"@[j]),
        forall|j: int| 0 <= j < "16by9"@.len() ==> noise_char(#[trigger] "16by9"@[j]),
        forall|j: int| 0 <= j < "2_7K"@.len() ==> noise_char(#[trigger] "2_7K"@[j]),
        forall|j: int| 0 <= j < "2,7K"@.len() ==> noise_char(#[trigger] "2,7K"@[j]),
        forall|j: int| 0 <= j < "2.7K"@.len() ==> noise_char(#[trigger] "2.7K"@[j]),
        forall|j: int| 0 <= j < "4K"@.len() ==> noise_char(#[trigger] "4K"@[j]),
        forall|j: int| 0 <= j < "5K"@.len() ==> noise_char(#[trigger] "5K"@[j]),
        forall|j: int| 0 <= j < "_"@.len() ==> noise_char(#[trigger] "_"@[j]),
{
    reveal_strlit(".json");
    reveal_strlit("4_3");
    reveal_strlit("4:3");
    reveal_strlit("4by3");
    reveal_strlit("16:9");
    reveal_strlit("169");
    reveal_strlit("16_9");
    reveal_strlit("16*9");
    reveal_strlit("16/9");
    reveal_strlit("16by9");
    reveal_strlit("2_7K");
    reveal_strlit("2,7K");
    reveal_strlit("2.7K");
    reveal_strlit("4K");
    reveal_strlit("5K");
    reveal_strlit("_");
    reveal_strlit("");
    reveal_strlit(" ");
}

proof fn lemma_replaced_in_context(a: Seq<char>, x: Seq<char>, b: Seq<char>, pat: Seq<char>, rep: Seq<char>)
    requires
        pat.len() > 0,
        plain(a),
        plain(b),
        forall|j: int| 0 <= j < pat.len() ==> noise_char(#[trigger] pat[j]),
    ensures
        replaced(a + x + b, pat, rep) == a + replaced(x, pat, rep) + b,
{
    assert(a + x + b =~= a + (x + b));
    assert(noise_char(pat[0]));
    lemma_replaced_skips_prefix(a, x + b, pat, rep);
    assert forall|i: int, j: int| 0 <= i < b.len() && 0 <= j < pat.len() implies #[trigger] b[i] != #[trigger] pat[j] by {
        assert(!noise_char(b[i]));
        assert(noise_char(pat[j]));
    }
    lemma_replaced_keeps_suffix(x, b, pat, rep);
    assert(a + (replaced(x, pat, rep) + b) =~= a + replaced(x, pat, rep) + b);
}

/// Cleaning a name cleans the part between two parts that hold no character of any
/// noise token, and leaves those parts as they are.
pub proof fn law_cleanup_works_between_plain_parts(a: Seq<char>, x: Seq<char>, b: Seq<char>)
    requires
        plain(a),
        plain(b),
    ensures
        cleaned_name(a + x + b) == a + cleaned_name(x) + b,
{
    lemma_noise_patterns();
    reveal_strlit(".json");
    reveal_strlit("4_3");
    reveal_strlit("4:3");
    reveal_strlit("4by3");
    reveal_strlit("16:9");
    reveal_strlit("169");
    reveal_strlit("16_9");
    reveal_strlit("16*9");
    reveal_strlit("16/9");
    reveal_strlit("16by9");
    reveal_strlit("2_7K");
    reveal_strlit("2,7K");
    reveal_strlit("2.7K");
    reveal_strlit("4K");
    reveal_strlit("5K");
    reveal_strlit("_");
    reveal_strlit("");
    reveal_strlit(" ");
    let x0 = x;
    lemma_replaced_in_context(a, x0, b, ".json"@, ""@);
    let x1 = replaced(x0, ".json"@, ""@);
    lemma_replaced_in_context(a, x1, b, "4_3"@, ""@);
    let x2 = replaced(x1, "4_3"@, ""@);
    lemma_replaced_in_context(a, x2, b, "4:3"@, ""@);
    let x3 = replaced(x2, "4:3"@, ""@);
    lemma_replaced_in_context(a, x3, b, "4by3"@, ""@);
    let x4 = replaced(x3, "4by3"@, ""@);
    lemma_replaced_in_context(a, x4, b, "16:9"@, ""@);
    let x5 = replaced(x4, "16:9"@, ""@);
    lemma_replaced_in_context(a, x5, b, "169"@, ""@);
    let x6 = replaced(x5, "169"@, ""@);
    lemma_replaced_in_context(a, x6, b, "16_9"@, ""@);
    let x7 = replaced(x6, "16_9"@, ""@);
    lemma_replaced_in_context(a, x7, b, "16*9"@, ""@);
    let x8 = replaced(x7, "16*9"@, ""@);
    lemma_replaced_in_context(a, x8, b, "16/9"@, ""@);
    let x9 = replaced(x8, "16/9"@, ""@);
    lemma_replaced_in_context(a, x9, b, "16by9"@, ""@);
    let x10 = replaced(x9, "16by9"@, ""@);
    lemma_replaced_in_context(a, x10, b, "2_7K"@, ""@);
    let x11 = replaced(x10, "2_7K"@, ""@);
    lemma_replaced_in_context(a, x11, b, "2,7K"@, ""@);
    let x12 = replaced(x11, "2,7K"@, ""@);
    lemma_replaced_in_context(a, x12, b, "2.7K"@, ""@);
    let x13 = replaced(x12, "2.7K"@, ""@);
    lemma_replaced_in_context(a, x13, b, "4K"@, ""@);
    let x14 = replaced(x13, "4K"@, ""@);
    lemma_replaced_in_context(a, x14, b, "5K"@, ""@);
    let x15 = replaced(x14, "5K"@, ""@);
    lemma_replaced_in_context(a, x15, b, "_"@, " "@);
    let x16 = replaced(x15, "_"@, " "@);
}

proof fn lemma_cleans_token_0()
    ensures
        cleaned_name(".json"@) == Seq::<char>::empty(),
{
    reveal_strlit(".json");
    reveal_strlit("4_3");
    reveal_strlit("4:3");
    reveal_strlit("4by3");
    reveal_strlit("16:9");
    reveal_strlit("169");
    reveal_strlit("16_9");
    reveal_strlit("16*9");
    reveal_strlit("16/9");
    reveal_strlit("16by9");
    reveal_strlit("2_7K");
    reveal_strlit("2,7K");
    reveal_strlit("2.7K");
    reveal_strlit("4K");
    reveal_strlit("5K");
    reveal_strlit("_");
    reveal_strlit("");
    reveal_strlit(" ");
    lemma_replaced_whole(".json"@, ""@);
}

proof fn lemma_cleans_token_1()
    ensures
        cleaned_name("4_3"@) == Seq::<char>::empty(),
{
    reveal_strlit(".json");
    reveal_strlit("4_3");
    reveal_strlit("4:3");
    reveal_strlit("4by3");
    reveal_strlit("16:9");
    reveal_strlit("169");
    reveal_strlit("16_9");
    reveal_strlit("16*9");
    reveal_strlit("16/9");
    reveal_strlit("16by9");
    reveal_strlit("2_7K");
    reveal_strlit("2,7K");
    reveal_strlit("2.7K");
    reveal_strlit("4K");
    reveal_strlit("5K");
    reveal_strlit("_");
    reveal_strlit("");
    reveal_strlit(" ");
    lemma_untouched("4_3"@, ".json"@, ""@);
    lemma_replaced_whole("4_3"@, ""@);
}

proof fn lemma_cleans_token_2()
    ensures
        cleaned_name("4:3"@) == Seq::<char>::empty(),
{
    reveal_strlit(".json");
    reveal_strlit("4_3");
    reveal_strlit("4:3");
    reveal_strlit("4by3");
    reveal_strlit("16:9");
    reveal_strlit("169");
    reveal_strlit("16_9");
    reveal_strlit("16*9");
    reveal_strlit("16/9");
    reveal_strlit("16by9");
    reveal_strlit("2_7K");
    reveal_strlit("2,7K");
    reveal_strlit("2.7K");
    reveal_strlit("4K");
    reveal_strlit("5K");
    reveal_strlit("_");
    reveal_strlit("");
    reveal_strlit(" ");
    lemma_untouched("4:3"@, ".json"@, ""@);
    lemma_replaced_mismatch("4:3"@, "4_3"@, ""@, 1);
    lemma_replaced_whole("4:3"@, ""@);
}

proof fn lemma_cleans_token_3()
    ensures
        cleaned_name("4by3"@) == Seq::<char>::empty(),
{
    reveal_strlit(".json");
    reveal_strlit("4_3");
    reveal_strlit("4:3");
    reveal_strlit("4by3");
    reveal_strlit("16:9");
    reveal_strlit("169");
    reveal_strlit("16_9");
    reveal_strlit("16*9");
    reveal_strlit("16/9");
    reveal_strlit("16by9");
    reveal_strlit("2_7K");
    reveal_strlit("2,7K");
    reveal_strlit("2.7K");
    reveal_strlit("4K");
    reveal_strlit("5K");
    reveal_strlit("_");
    reveal_strlit("");
    reveal_strlit(" ");
    lemma_untouched("4by3"@, ".json"@, ""@);
    lemma_replaced_mismatch("4by3"@, "4_3"@, ""@, 1);
    lemma_replaced_mismatch("4by3"@, "4:3"@, ""@, 1);
    lemma_replaced_whole("4by3"@, ""@);
}

proof fn lemma_cleans_token_4()
    ensures
        cleaned_name("16:9"@) == Seq::<char>::empty(),
{
    reveal_strlit(".json");
    reveal_strlit("4_3");
    reveal_strlit("4:3");
    reveal_strlit("4by3");
    reveal_strlit("16:9");
    reveal_strlit("169");
    reveal_strlit("16_9");
    reveal_strlit("16*9");
    reveal_strlit("16/9");
    reveal_strlit("16by9");
    reveal_strlit("2_7K");
    reveal_strlit("2,7K");
    reveal_strlit("2.7K");
    reveal_strlit("4K");
    reveal_strlit("5K");
    reveal_strlit("_");
    reveal_strlit("");
    reveal_strlit(" ");
    lemma_untouched("16:9"@, ".json"@, ""@);
    lemma_untouched("16:9"@, "4_3"@, ""@);
    lemma_untouched("16:9"@, "4:3"@, ""@);
    lemma_untouched("16:9"@, "4by3"@, ""@);
    lemma_replaced_whole("16:9"@, ""@);
}

proof fn lemma_cleans_token_5()
    ensures
        cleaned_name("169"@) == Seq::<char>::empty(),
{
    reveal_strlit(".json");
    reveal_strlit("4_3");
    reveal_strlit("4:3");
    reveal_strlit("4by3");
    reveal_strlit("16:9");
    reveal_strlit("169");
    reveal_strlit("16_9");
    reveal_strlit("16*9");
    reveal_strlit("16/9");
    reveal_strlit("16by9");
    reveal_strlit("2_7K");
    reveal_strlit("2,7K");
    reveal_strlit("2.7K");
    reveal_strlit("4K");
    reveal_strlit("5K");
    reveal_strlit("_");
    reveal_strlit("");
    reveal_strlit(" ");
    lemma_untouched("169"@, ".json"@, ""@);
    lemma_untouched("169"@, "4_3"@, ""@);
    lemma_untouched("169"@, "4:3"@, ""@);
    lemma_untouched("169"@, "4by3"@, ""@);
    lemma_replaced_short("169"@, "16:9"@, ""@);
    lemma_replaced_whole("169"@, ""@);
}

proof fn lemma_cleans_token_6()
    ensures
        cleaned_name("16_9"@) == Seq::<char>::empty(),
{
    reveal_strlit(".json");
    reveal_strlit("4_3");
    reveal_strlit("4:3");
    reveal_strlit("4by3");
    reveal_strlit("16:9");
    reveal_strlit("169");
    reveal_strlit("16_9");
    reveal_strlit("16*9");
    reveal_strlit("16/9");
    reveal_strlit("16by9");
    reveal_strlit("2_7K");
    reveal_strlit("2,7K");
    reveal_strlit("2.7K");
    reveal_strlit("4K");
    reveal_strlit("5K");
    reveal_strlit("_");
    reveal_strlit("");
    reveal_strlit(" ");
    lemma_untouched("16_9"@, ".json"@, ""@);
    lemma_untouched("16_9"@, "4_3"@, ""@);
    lemma_untouched("16_9"@, "4:3"@, ""@);
    lemma_untouched("16_9"@, "4by3"@, ""@);
    lemma_replaced_mismatch("16_9"@, "16:9"@, ""@, 2);
    lemma_replaced_mismatch("16_9"@, "169"@, ""@, 2);
    lemma_replaced_whole("16_9"@, ""@);
}

proof fn lemma_cleans_token_7()
    ensures
        cleaned_name("16*9"@) == Seq::<char>::empty(),
{
    reveal_strlit(".json");
    reveal_strlit("4_3");
    reveal_strlit("4:3");
    reveal_strlit("4by3");
    reveal_strlit("16:9");
    reveal_strlit("169");
    reveal_strlit("16_9");
    reveal_strlit("16*9");
    reveal_strlit("16/9");
    reveal_strlit("16by9");
    reveal_strlit("2_7K");
    reveal_strlit("2,7K");
    reveal_strlit("2.7K");
    reveal_strlit("4K");
    reveal_strlit("5K");
    reveal_strlit("_");
    reveal_strlit("");
    reveal_strlit(" ");
    lemma_untouched("16*9"@, ".json"@, ""@);
    lemma_untouched("16*9"@, "4_3"@, ""@);
    lemma_untouched("16*9"@, "4:3"@, ""@);
    lemma_untouched("16*9"@, "4by3"@, ""@);
    lemma_replaced_mismatch("16*9"@, "16:9"@, ""@, 2);
    lemma_replaced_mismatch("16*9"@, "169"@, ""@, 2);
    lemma_replaced_mismatch("16*9"@, "16_9"@, ""@, 2);
    lemma_replaced_whole("16*9"@, ""@);
}

proof fn lemma_cleans_token_8()
    ensures
        cleaned_name("16/9"@) == Seq::<char>::empty(),
{
    reveal_strlit(".json");
    reveal_strlit("4_3");
    reveal_strlit("4:3");
    reveal_strlit("4by3");
    reveal_strlit("16:9");
    reveal_strlit("169");
    reveal_strlit("16_9");
    reveal_strlit("16*9");
    reveal_strlit("16/9");
    reveal_strlit("16by9");
    reveal_strlit("2_7K");
    reveal_strlit("2,7K");
    reveal_strlit("2.7K");
    reveal_strlit("4K");
    reveal_strlit("5K");
    reveal_strlit("_");
    reveal_strlit("");
    reveal_strlit(" ");
    lemma_untouched("16/9"@, ".json"@, ""@);
    lemma_untouched("16/9"@, "4_3"@, ""@);
    lemma_untouched("16/9"@, "4:3"@, ""@);
    lemma_untouched("16/9"@, "4by3"@, ""@);
    lemma_replaced_mismatch("16/9"@, "16:9"@, ""@, 2);
    lemma_replaced_mismatch("16/9"@, "169"@, ""@, 2);
    lemma_replaced_mismatch("16/9"@, "16_9"@, ""@, 2);
    lemma_replaced_mismatch("16/9"@, "16*9"@, ""@, 2);
    lemma_replaced_whole("16/9"@, ""@);
}

proof fn lemma_cleans_token_9()
    ensures
        cleaned_name("16by9"@) == Seq::<char>::empty(),
{
    reveal_strlit(".json");
    reveal_strlit("4_3");
    reveal_strlit("4:3");
    reveal_strlit("4by3");
    reveal_strlit("16:9");
    reveal_strlit("169");
    reveal_strlit("16_9");
    reveal_strlit("16*9");
    reveal_strlit("16/9");
    reveal_strlit("16by9");
    reveal_strlit("2_7K");
    reveal_strlit("2,7K");
    reveal_strlit("2.7K");
    reveal_strlit("4K");
    reveal_strlit("5K");
    reveal_strlit("_");
    reveal_strlit("");
    reveal_strlit(" ");
    lemma_untouched("16by9"@, ".json"@, ""@);
    lemma_untouched("16by9"@, "4_3"@, ""@);
    lemma_untouched("16by9"@, "4:3"@, ""@);
    lemma_untouched("16by9"@, "4by3"@, ""@);
    lemma_replaced_mismatch("16by9"@, "16:9"@, ""@, 2);
    lemma_replaced_mismatch("16by9"@, "169"@, ""@, 2);
    lemma_replaced_mismatch("16by9"@, "16_9"@, ""@, 2);
    lemma_replaced_mismatch("16by9"@, "16*9"@, ""@, 2);
    lemma_replaced_mismatch("16by9"@, "16/9"@, ""@, 2);
    lemma_replaced_whole("16by9"@, ""@);
}

proof fn lemma_cleans_token_10()
    ensures
        cleaned_name("2_7K"@) == Seq::<char>::empty(),
{
    reveal_strlit(".json");
    reveal_strlit("4_3");
    reveal_strlit("4:3");
    reveal_strlit("4by3");
    reveal_strlit("16:9");
    reveal_strlit("169");
    reveal_strlit("16_9");
    reveal_strlit("16*9");
    reveal_strlit("16/9");
    reveal_strlit("16by9");
    reveal_strlit("2_7K");
    reveal_strlit("2,7K");
    reveal_strlit("2.7K");
    reveal_strlit("4K");
    reveal_strlit("5K");
    reveal_strlit("_");
    reveal_strlit("");
    reveal_strlit(" ");
    lemma_untouched("2_7K"@, ".json"@, ""@);
    lemma_untouched("2_7K"@, "4_3"@, ""@);
    lemma_untouched("2_7K"@, "4:3"@, ""@);
    lemma_untouched("2_7K"@, "4by3"@, ""@);
    lemma_untouched("2_7K"@, "16:9"@, ""@);
    lemma_untouched("2_7K"@, "169"@, ""@);
    lemma_untouched("2_7K"@, "16_9"@, ""@);
    lemma_untouched("2_7K"@, "16*9"@, ""@);
    lemma_untouched("2_7K"@, "16/9"@, ""@);
    lemma_untouched("2_7K"@, "16by9"@, ""@);
    lemma_replaced_whole("2_7K"@, ""@);
}

proof fn lemma_cleans_token_11()
    ensures
        cleaned_name("2,7K"@) == Seq::<char>::empty(),
{
    reveal_strlit(".json");
    reveal_strlit("4_3");
    reveal_strlit("4:3");
    reveal_strlit("4by3");
    reveal_strlit("16:9");
    reveal_strlit("169");
    reveal_strlit("16_9");
    reveal_strlit("16*9");
    reveal_strlit("16/9");
    reveal_strlit("16by9");
    reveal_strlit("2_7K");
    reveal_strlit("2,7K");
    reveal_strlit("2.7K");
    reveal_strlit("4K");
    reveal_strlit("5K");
    reveal_strlit("_");
    reveal_strlit("");
    reveal_strlit(" ");
    lemma_untouched("2,7K"@, ".json"@, ""@);
    lemma_untouched("2,7K"@, "4_3"@, ""@);
    lemma_untouched("2,7K"@, "4:3"@, ""@);
    lemma_untouched("2,7K"@, "4by3"@, ""@);
    lemma_untouched("2,7K"@, "16:9"@, ""@);
    lemma_untouched("2,7K"@, "169"@, ""@);
    lemma_untouched("2,7K"@, "16_9"@, ""@);
    lemma_untouched("2,7K"@, "16*9"@, ""@);
    lemma_untouched("2,7K"@, "16/9"@, ""@);
    lemma_untouched("2,7K"@, "16by9"@, ""@);
    lemma_replaced_mismatch("2,7K"@, "2_7K"@, ""@, 1);
    lemma_replaced_whole("2,7K"@, ""@);
}

proof fn lemma_cleans_token_12()
    ensures
        cleaned_name("2.7K"@) == Seq::<char>::empty(),
{
    reveal_strlit(".json");
    reveal_strlit("4_3");
    reveal_strlit("4:3");
    reveal_strlit("4by3");
    reveal_strlit("16:9");
    reveal_strlit("169");
    reveal_strlit("16_9");
    reveal_strlit("16*9");
    reveal_strlit("16/9");
    reveal_strlit("16by9");
    reveal_strlit("2_7K");
    reveal_strlit("2,7K");
    reveal_strlit("2.7K");
    reveal_strlit("4K");
    reveal_strlit("5K");
    reveal_strlit("_");
    reveal_strlit("");
    reveal_strlit(" ");
    lemma_replaced_short("2.7K"@, ".json"@, ""@);
    lemma_untouched("2.7K"@, "4_3"@, ""@);
    lemma_untouched("2.7K"@, "4:3"@, ""@);
    lemma_untouched("2.7K"@, "4by3"@, ""@);
    lemma_untouched("2.7K"@, "16:9"@, ""@);
    lemma_untouched("2.7K"@, "169"@, ""@);
    lemma_untouched("2.7K"@, "16_9"@, ""@);
    lemma_untouched("2.7K"@, "16*9"@, ""@);
    lemma_untouched("2.7K"@, "16/9"@, ""@);
    lemma_untouched("2.7K"@, "16by9"@, ""@);
    lemma_replaced_mismatch("2.7K"@, "2_7K"@, ""@, 1);
    lemma_replaced_mismatch("2.7K"@, "2,7K"@, ""@, 1);
    lemma_replaced_whole("2.7K"@, ""@);
}

proof fn lemma_cleans_token_13()
    ensures
        cleaned_name("4K"@) == Seq::<char>::empty(),
{
    reveal_strlit(".json");
    reveal_strlit("4_3");
    reveal_strlit("4:3");
    reveal_strlit("4by3");
    reveal_strlit("16:9");
    reveal_strlit("169");
    reveal_strlit("16_9");
    reveal_strlit("16*9");
    reveal_strlit("16/9");
    reveal_strlit("16by9");
    reveal_strlit("2_7K");
    reveal_strlit("2,7K");
    reveal_strlit("2.7K");
    reveal_strlit("4K");
    reveal_strlit("5K");
    reveal_strlit("_");
    reveal_strlit("");
    reveal_strlit(" ");
    lemma_untouched("4K"@, ".json"@, ""@);
    lemma_replaced_short("4K"@, "4_3"@, ""@);
    lemma_replaced_short("4K"@, "4:3"@, ""@);
    lemma_replaced_short("4K"@, "4by3"@, ""@);
    lemma_untouched("4K"@, "16:9"@, ""@);
    lemma_untouched("4K"@, "169"@, ""@);
    lemma_untouched("4K"@, "16_9"@, ""@);
    lemma_untouched("4K"@, "16*9"@, ""@);
    lemma_untouched("4K"@, "16/9"@, ""@);
    lemma_untouched("4K"@, "16by9"@, ""@);
    lemma_untouched("4K"@, "2_7K"@, ""@);
    lemma_untouched("4K"@, "2,7K"@, ""@);
    lemma_untouched("4K"@, "2.7K"@, ""@);
    lemma_replaced_whole("4K"@, ""@);
}

proof fn lemma_cleans_token_14()
    ensures
        cleaned_name("5K"@) == Seq::<char>::empty(),
{
    reveal_strlit(".json");
    reveal_strlit("4_3");
    reveal_strlit("4:3");
    reveal_strlit("4by3");
    reveal_strlit("16:9");
    reveal_strlit("169");
    reveal_strlit("16_9");
    reveal_strlit("16*9");
    reveal_strlit("16/9");
    reveal_strlit("16by9");
    reveal_strlit("2_7K");
    reveal_strlit("2,7K");
    reveal_strlit("2.7K");
    reveal_strlit("4K");
    reveal_strlit("5K");
    reveal_strlit("_");
    reveal_strlit("");
    reveal_strlit(" ");
    lemma_untouched("5K"@, ".json"@, ""@);
    lemma_untouched("5K"@, "4_3"@, ""@);
    lemma_untouched("5K"@, "4:3"@, ""@);
    lemma_untouched("5K"@, "4by3"@, ""@);
    lemma_untouched("5K"@, "16:9"@, ""@);
    lemma_untouched("5K"@, "169"@, ""@);
    lemma_untouched("5K"@, "16_9"@, ""@);
    lemma_untouched("5K"@, "16*9"@, ""@);
    lemma_untouched("5K"@, "16/9"@, ""@);
    lemma_untouched("5K"@, "16by9"@, ""@);
    lemma_untouched("5K"@, "2_7K"@, ""@);
    lemma_untouched("5K"@, "2,7K"@, ""@);
    lemma_untouched("5K"@, "2.7K"@, ""@);
    lemma_untouched("5K"@, "4K"@, ""@);
    lemma_replaced_whole("5K"@, ""@);
}

proof fn lemma_cleans_token_15()
    ensures
        cleaned_name("_"@) == " "@,
{
    reveal_strlit(".json");
    reveal_strlit("4_3");
    reveal_strlit("4:3");
    reveal_strlit("4by3");
    reveal_strlit("16:9");
    reveal_strlit("169");
    reveal_strlit("16_9");
    reveal_strlit("16*9");
    reveal_strlit("16/9");
    reveal_strlit("16by9");
    reveal_strlit("2_7K");
    reveal_strlit("2,7K");
    reveal_strlit("2.7K");
    reveal_strlit("4K");
    reveal_strlit("5K");
    reveal_strlit("_");
    reveal_strlit("");
    reveal_strlit(" ");
    lemma_untouched("_"@, ".json"@, ""@);
    lemma_untouched("_"@, "4_3"@, ""@);
    lemma_untouched("_"@, "4:3"@, ""@);
    lemma_untouched("_"@, "4by3"@, ""@);
    lemma_untouched("_"@, "16:9"@, ""@);
    lemma_untouched("_"@, "169"@, ""@);
    lemma_untouched("_"@, "16_9"@, ""@);
    lemma_untouched("_"@, "16*9"@, ""@);
    lemma_untouched("_"@, "16/9"@, ""@);
    lemma_untouched("_"@, "16by9"@, ""@);
    lemma_untouched("_"@, "2_7K"@, ""@);
    lemma_untouched("_"@, "2,7K"@, ""@);
    lemma_untouched("_"@, "2.7K"@, ""@);
    lemma_untouched("_"@, "4K"@, ""@);
    lemma_untouched("_"@, "5K"@, ""@);
    lemma_replaced_whole("_"@, " "@);
}

/// Each noise token between two parts that hold no character of any noise token is
/// taken out of a name: `.json`, the aspect ratios (`4_3`, `4:3`, `4by3`, `16:9`,
/// `169`, `16_9`, `16*9`, `16/9`, `16by9`) and the resolutions (`2_7K`, `2,7K`,
/// `2.7K`, `4K`, `5K`); and an underscore between them becomes a space.
pub proof fn law_cleanup_takes_noise_out(a: Seq<char>, b: Seq<char>, i: int)
    requires
        plain(a),
        plain(b),
        0 <= i < noise_tokens().len(),
    ensures
        cleaned_name(a + noise_tokens()[i] + b) == a + b,
        cleaned_name(a + "_"@ + b) == a + " "@ + b,
{
    law_cleanup_works_between_plain_parts(a, noise_tokens()[i], b);
    law_cleanup_works_between_plain_parts(a, "_"@, b);
    lemma_cleans_token_15();
    if i == 0 {
        lemma_cleans_token_0();
    } else if i == 1 {
        lemma_cleans_token_1();
    } else if i == 2 {
        lemma_cleans_token_2();
    } else if i == 3 {
        lemma_cleans_token_3();
    } else if i == 4 {
        lemma_cleans_token_4();
    } else if i == 5 {
        lemma_cleans_token_5();
    } else if i == 6 {
        lemma_cleans_token_6();
    } else if i == 7 {
        lemma_cleans_token_7();
    } else if i == 8 {
        lemma_cleans_token_8();
    } else if i == 9 {
        lemma_cleans_token_9();
    } else if i == 10 {
        lemma_cleans_token_10();
    } else if i == 11 {
        lemma_cleans_token_11();
    } else if i == 12 {
        lemma_cleans_token_12();
    } else if i == 13 {
        lemma_cleans_token_13();
    } else if i == 14 {
        lemma_cleans_token_14();
    }
    assert(a + Seq::<char>::empty() + b =~= a + b);
}

/// A character that none of the frame-size tokens holds: no digit, and none of
/// `x`, `p`, `k`, `C`, `.`, `K`, `U`, `H`, `D`.
pub open spec fn frame_quiet_char(c: char) -> bool {
    !('0' <= c && c <= '9') && c != 'x' && c != 'p' && c != 'k' && c != 'C' && c != '.' && c != 'K' && c != 'U'
        && c != 'H' && c != 'D'
}

/// A part of a camera setting that holds no character of any frame-size token, nor of
/// the aspect ratio's name.
pub open spec fn frame_quiet(s: Seq<char>, aspect_ratio: Seq<char>) -> bool {
    &&& forall|i: int| 0 <= i < s.len() ==> frame_quiet_char(#[trigger] s[i])
    &&& forall|i: int, k: int| 0 <= i < s.len() && 0 <= k < aspect_ratio.len() ==> #[trigger] s[i] != #[trigger] aspect_ratio[k]
}

/// The tokens of the frame size that `setting_without_frame_size` takes out, but for
/// the aspect ratio and the size class: the dimensions `{w}x{h}`, the height `{h}p`,
/// and `1080`, `2160`, `C4K`, `UHD`.
pub open spec fn frame_size_tokens(w: usize, h: usize) -> Seq<Seq<char>> {
    seq![dec_text(w as nat) + "x"@ + dec_text(h as nat), dec_text(h as nat) + "p"@, "1080"@, "2160"@, "C4K"@, "UHD"@]
}

proof fn lemma_dec_text_digits(n: nat)
    ensures
        forall|j: int| 0 <= j < dec_text(n).len() ==> '0' <= #[trigger] dec_text(n)[j] && dec_text(n)[j] <= '9',
    decreases n,
{
    if n >= 10 {
        lemma_dec_text_digits(n / 10);
        assert(dec_text(n) == dec_text(n / 10).push(digit_char(n % 10)));
    }
    assert(('0' as nat + n % 10) as int <= '9' as int);
}

/// Every size class is empty or ends in `k` or `p`, and holds no quiet character.
proof fn lemma_size_class_chars(w: usize, h: usize)
    ensures
        size_class(w, h)@.len() == 0 || size_class(w, h)@.last() == 'k' || size_class(w, h)@.last() == 'p',
        forall|j: int| 0 <= j < size_class(w, h)@.len() ==> !frame_quiet_char(#[trigger] size_class(w, h)@[j]),
{
    reveal_strlit("8k");
    reveal_strlit("6k");
    reveal_strlit("5k");
    reveal_strlit("C4k");
    reveal_strlit("4k");
    reveal_strlit("2.7k");
    reveal_strlit("2.5k");
    reveal_strlit("2k");
    reveal_strlit("1440p");
    reveal_strlit("1080p");
    reveal_strlit("720p");
    reveal_strlit("480p");
    reveal_strlit("");
}

/// The pattern `pat` shares no character with the quiet parts `a` and `b`.
proof fn lemma_frame_between(a: Seq<char>, x: Seq<char>, b: Seq<char>, pat: Seq<char>, aspect_ratio: Seq<char>, quiet_pattern: bool)
    requires
        frame_quiet(a, aspect_ratio),
        frame_quiet(b, aspect_ratio),
        quiet_pattern ==> forall|j: int| 0 <= j < pat.len() ==> !frame_quiet_char(#[trigger] pat[j]),
        !quiet_pattern ==> pat == aspect_ratio,
    ensures
        without(a + x + b, pat) == a + without(x, pat) + b,
{
    if pat.len() == 0 {
    } else {
        assert forall|i: int, j: int| 0 <= i < a.len() && 0 <= j < pat.len() implies #[trigger] a[i] != #[trigger] pat[j] by {
            if quiet_pattern {
                assert(frame_quiet_char(a[i]));
            }
        }
        assert forall|i: int, j: int| 0 <= i < b.len() && 0 <= j < pat.len() implies #[trigger] b[i] != #[trigger] pat[j] by {
            if quiet_pattern {
                assert(frame_quiet_char(b[i]));
            }
        }
        lemma_replaced_between(a, x, b, pat, ""@);
    }
}

/// Taking the frame size out of a setting works on the part between two quiet parts
/// alone, and leaves those parts as they are.
pub proof fn law_frame_size_works_between_quiet_parts(a: Seq<char>, x: Seq<char>, b: Seq<char>, w: usize, h: usize, aspect_ratio: Seq<char>)
    requires
        frame_quiet(a, aspect_ratio),
        frame_quiet(b, aspect_ratio),
    ensures
        setting_without_frame_size(a + x + b, w, h, aspect_ratio) == a + setting_without_frame_size(x, w, h, aspect_ratio) + b,
{
    reveal_strlit("x");
    reveal_strlit("p");
    reveal_strlit("1080");
    reveal_strlit("2160");
    reveal_strlit("C4K");
    reveal_strlit("UHD");
    lemma_dec_text_digits(w as nat);
    lemma_dec_text_digits(h as nat);
    lemma_dec_text_len(w as nat);
    lemma_dec_text_len(h as nat);
    lemma_size_class_chars(w, h);
    let wxh = dec_text(w as nat) + "x"@ + dec_text(h as nat);
    let hp = dec_text(h as nat) + "p"@;
    assert forall|j: int| 0 <= j < wxh.len() implies !frame_quiet_char(#[trigger] wxh[j]) by {
        if j < dec_text(w as nat).len() {
            assert(wxh[j] == dec_text(w as nat)[j]);
        } else if j == dec_text(w as nat).len() {
            assert(wxh[j] == 'x');
        } else {
            assert(wxh[j] == dec_text(h as nat)[j - dec_text(w as nat).len() - 1]);
        }
    }
    assert forall|j: int| 0 <= j < hp.len() implies !frame_quiet_char(#[trigger] hp[j]) by {
        if j < dec_text(h as nat).len() {
            assert(hp[j] == dec_text(h as nat)[j]);
        }
    }
    let x0 = x;
    lemma_frame_between(a, x0, b, wxh, aspect_ratio, true);
    let x1 = replaced(x0, wxh, ""@);
    lemma_frame_between(a, x1, b, hp, aspect_ratio, true);
    let x2 = replaced(x1, hp, ""@);
    lemma_frame_between(a, x2, b, aspect_ratio, aspect_ratio, false);
    let x3 = without(x2, aspect_ratio);
    lemma_frame_between(a, x3, b, size_class(w, h)@, aspect_ratio, true);
    let x4 = without(x3, size_class(w, h)@);
    lemma_frame_between(a, x4, b, "1080"@, aspect_ratio, true);
    let x5 = replaced(x4, "1080"@, ""@);
    lemma_frame_between(a, x5, b, "2160"@, aspect_ratio, true);
    let x6 = replaced(x5, "2160"@, ""@);
    lemma_frame_between(a, x6, b, "C4K"@, aspect_ratio, true);
    let x7 = replaced(x6, "C4K"@, ""@);
    lemma_frame_between(a, x7, b, "UHD"@, aspect_ratio, true);
}

/// A text without the character at `k` of `pat` is left as it is.
proof fn lemma_without_absent(x: Seq<char>, pat: Seq<char>, k: int)
    requires
        0 <= k < pat.len(),
        forall|i: int| 0 <= i < x.len() ==> #[trigger] x[i] != pat[k],
    ensures
        without(x, pat) == x,
{
    lemma_replaced_absent_char(x, pat, ""@, k);
}

/// Each frame-size token between two quiet parts is taken out of a camera setting:
/// the dimensions `{w}x{h}`, the height `{h}p`, `1080`, `2160`, `C4K` and `UHD`, given
/// an aspect ratio named as aspect ratios are (empty, or holding a `:`).
pub proof fn law_frame_size_tokens_are_taken_out(a: Seq<char>, b: Seq<char>, w: usize, h: usize, aspect_ratio: Seq<char>, i: int)
    requires
        frame_quiet(a, aspect_ratio),
        frame_quiet(b, aspect_ratio),
        aspect_ratio.len() == 0 || aspect_ratio.contains(':'),
        0 <= i < frame_size_tokens(w, h).len(),
    ensures
        setting_without_frame_size(a + frame_size_tokens(w, h)[i] + b, w, h, aspect_ratio) == a + b,
{
    let t = frame_size_tokens(w, h)[i];
    law_frame_size_works_between_quiet_parts(a, t, b, w, h, aspect_ratio);
    reveal_strlit("x");
    reveal_strlit("p");
    reveal_strlit("1080");
    reveal_strlit("2160");
    reveal_strlit("C4K");
    reveal_strlit("UHD");
    reveal_strlit("");
    lemma_dec_text_digits(w as nat);
    lemma_dec_text_digits(h as nat);
    lemma_dec_text_len(w as nat);
    lemma_dec_text_len(h as nat);
    lemma_size_class_chars(w, h);
    let wxh = dec_text(w as nat) + "x"@ + dec_text(h as nat);
    let hp = dec_text(h as nat) + "p"@;
    let xk = dec_text(w as nat).len() as int;
    assert(wxh[xk] == 'x');
    assert(hp[hp.len() - 1] == 'p');
    let sc = size_class(w, h)@;
    let e = Seq::<char>::empty();
    // what the later steps do to nothing
    assert(replaced(e, wxh, ""@) == e);
    assert(replaced(e, hp, ""@) == e);
    assert(without(e, aspect_ratio) == e);
    assert(without(e, sc) == e);
    assert(replaced(e, "1080"@, ""@) == e);
    assert(replaced(e, "2160"@, ""@) == e);
    assert(replaced(e, "C4K"@, ""@) == e);
    assert(replaced(e, "UHD"@, ""@) == e);
    // the aspect ratio and the size class leave each token other than `{h}p` alone
    let ka: int = if aspect_ratio.len() == 0 { 0 } else { choose|k: int| 0 <= k < aspect_ratio.len() && aspect_ratio[k] == ':' };
    let ks: int = if sc.len() == 0 { 0 } else { sc.len() - 1 };
    if i == 0 {
        lemma_replaced_whole(wxh, ""@);
    } else if i == 1 {
        assert forall|j: int| 0 <= j < hp.len() implies #[trigger] hp[j] != wxh[xk] by {
            if j < dec_text(h as nat).len() {
                assert(hp[j] == dec_text(h as nat)[j]);
            }
        }
        lemma_replaced_absent_char(hp, wxh, ""@, xk);
        lemma_replaced_whole(hp, ""@);
    } else {
        assert(t.len() > 0);
        assert(forall|j: int| 0 <= j < t.len() ==> #[trigger] t[j] != 'x' && t[j] != 'p' && t[j] != 'k' && t[j] != ':');
        lemma_replaced_absent_char(t, wxh, ""@, xk);
        lemma_replaced_absent_char(t, hp, ""@, hp.len() - 1);
        if aspect_ratio.len() > 0 {
            lemma_without_absent(t, aspect_ratio, ka);
        }
        if sc.len() > 0 {
            lemma_without_absent(t, sc, ks);
        }
        if i == 2 {
            lemma_replaced_whole("1080"@, ""@);
        } else if i == 3 {
            lemma_replaced_absent_char(t, "1080"@, ""@, 2);
            lemma_replaced_whole("2160"@, ""@);
        } else if i == 4 {
            lemma_replaced_absent_char(t, "1080"@, ""@, 0);
            lemma_replaced_absent_char(t, "2160"@, ""@, 0);
            lemma_replaced_whole("C4K"@, ""@);
        } else {
            lemma_replaced_absent_char(t, "1080"@, ""@, 0);
            lemma_replaced_absent_char(t, "2160"@, ""@, 0);
            lemma_replaced_absent_char(t, "C4K"@, ""@, 0);
            lemma_replaced_whole("UHD"@, ""@);
        }
    }
    assert(a + e + b =~= a + b);
}

} // verus!

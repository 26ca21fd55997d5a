//! Preparing a recording for transcription tools: a mono 16 kHz 16-bit PCM WAV
//! next to the input, produced by macOS's `afconvert`.
use vstd::prelude::*;
use crate::text::{chars_of, contains, lacks, push_chars, push_str, string_of, trim, trim_chars};

verus! {

// ---------------------------------------------------------------------------
// Simple paths
// ---------------------------------------------------------------------------

/// `name` is one plain path component on every platform: not empty, not `.` or
/// `..`, and without `/`, `\\` or `:`.
pub open spec fn plain_name(name: Seq<char>) -> bool {
    &&& name.len() > 0
    &&& lacks(name, '/')
    &&& lacks(name, '\\')
    &&& lacks(name, ':')
    &&& name != seq!['.']
    &&& name != seq!['.', '.']
}

/// The position of the last `c` in `s`.
pub open spec fn last_index_of(s: Seq<char>, c: char) -> Option<int>
    decreases s.len(),
{
    if s.len() == 0 {
        None
    } else if s.last() == c {
        Some(s.len() - 1)
    } else {
        last_index_of(s.drop_last(), c)
    }
}

/// The text after the last `/` of a path (all of it when there is none).
pub open spec fn file_part(path: Seq<char>) -> Seq<char> {
    match last_index_of(path, '/') {
        Some(i) => path.subrange(i + 1, path.len() as int),
        None => path,
    }
}

/// The stem of a file name as `Path::file_stem` documents it: the whole name when
/// it has no `.` or only a leading one, else the part before its last `.`.
pub open spec fn stem_of(name: Seq<char>) -> Seq<char> {
    match last_index_of(name, '.') {
        Some(i) => if i > 0 {
            name.subrange(0, i)
        } else {
            name
        },
        None => name,
    }
}

/// A path that every platform splits the same way: components separated by single
/// `/`, no `\\` or `:` (so no Windows prefix), no `.` component, and a plain last
/// component.
pub open spec fn simple_path(path: Seq<char>) -> bool {
    &&& lacks(path, '\\')
    &&& lacks(path, ':')
    &&& plain_name(file_part(path))
    &&& forall|i: int| 0 <= i < path.len() - 1 && #[trigger] path[i] == '/' ==> path[i + 1] != '/'
    &&& forall|i: int|
        0 <= i < path.len() && #[trigger] path[i] == '.' && (i == 0 || path[i - 1] == '/') ==> (i
            + 1 < path.len() && path[i + 1] != '/')
}

/// What `Path::with_file_name` gives for a simple path and a plain name: the
/// name alone for a path of one component, the name after the root for `/x`, and
/// otherwise the directory part, the platform's separator (`/`, or `\\` on
/// Windows) and the name.
pub open spec fn simple_with_file_name(path: Seq<char>, name: Seq<char>, r: Seq<char>) -> bool {
    match last_index_of(path, '/') {
        None => r == name,
        Some(i) => if i == 0 {
            r == seq!['/'] + name
        } else {
            r == path.subrange(0, i) + seq!['/'] + name || r == path.subrange(0, i) + seq!['\\']
                + name
        },
    }
}

/// A path without `\\` or `:` that does not start with `//` (so that no Windows
/// prefix, such as `//server/share` or `//./device`, can form) and whose last
/// `/`-separated part is a plain name: its file name is that part on every platform.
pub open spec fn plain_file_path(path: Seq<char>) -> bool {
    &&& lacks(path, '\\')
    &&& lacks(path, ':')
    &&& !(path.len() >= 2 && path[0] == '/' && path[1] == '/')
    &&& plain_name(file_part(path))
}

/// Calls `std::path::Path::file_stem` on `path`: the stem (non-extension) portion
/// of the path's file name. The contract claims that a stem, when there is one, is
/// a nonempty part of `path` as written; and, for a plain file path (no `\\`, no
/// `:`, no leading `//`, a plain last `/`-separated part), that there is a stem and
/// it is the one the documentation gives for that last part, which is then the
/// file name on every platform.
/// Other paths follow the platform's own syntax, which no clause states.
#[verifier::external_body]
fn file_stem(path: &str) -> (r: Option<String>)
    ensures
        match r {
            Some(s) => s@.len() > 0 && contains(path@, s@) && (plain_file_path(path@) ==> s@
                == stem_of(file_part(path@))),
            None => !plain_file_path(path@),
        },
{
    match std::path::Path::new(path).file_stem() {
        Some(stem) => Some(stem.to_string_lossy().into_owned()),
        None => None,
    }
}

/// Calls `std::path::Path::with_file_name`: the path with its last component
/// replaced by `name`, as popping the last component and pushing `name` does. The
/// contract claims the result only for a simple path and a plain name, where the
/// documentation fixes it up to the separator that the platform inserts; other
/// paths follow the platform's own syntax (a Windows verbatim prefix even
/// normalizes what is pushed), which no clause states.
#[verifier::external_body]
fn with_file_name(path: &str, name: &str) -> (r: String)
    ensures
        simple_path(path@) && plain_name(name@) ==> simple_with_file_name(path@, name@, r@),
{
    std::path::Path::new(path).with_file_name(name).to_string_lossy().into_owned()
}

/// The file name of the default output for an input with file stem `stem`.
pub open spec fn default_output_file_name(stem: Option<Seq<char>>) -> Seq<char> {
    let base = match stem {
        Some(s) => s,
        None => "audio"@,
    };
    base + "-16k-mono.wav"@
}

/// The file name of the default output: `<stem>-16k-mono.wav`, or
/// `audio-16k-mono.wav` for an input without a file stem.
pub fn default_output_name(stem: Option<&str>) -> (name: String)
    ensures
        name@ == default_output_file_name(
            match stem {
                Some(s) => Some(s@),
                None => None,
            },
        ),
{
    let mut name = match stem {
        Some(s) => {
            let c = chars_of(s);
            string_of(c.as_slice())
        },
        None => {
            let c = chars_of("audio");
            string_of(c.as_slice())
        },
    };
    push_str(&mut name, "-16k-mono.wav");
    name
}

/// `out` is the default output of `input` wherever every platform reads the input
/// alike: for a simple path, the stem of its file part followed by
/// `-16k-mono.wav`, put in place of its file part.
pub open spec fn default_output_of(input: Seq<char>, out: Seq<char>) -> bool {
    simple_path(input) ==> simple_with_file_name(
        input,
        default_output_file_name(Some(stem_of(file_part(input)))),
        out,
    )
}

/// The stem of a plain name is a plain name, and so is the default output name.
proof fn lemma_default_name_plain(file: Seq<char>)
    requires
        plain_name(file),
    ensures
        plain_name(default_output_file_name(Some(stem_of(file)))),
{
    lemma_last_index_in_range(file, '.');
    let stem = stem_of(file);
    let tail = "-16k-mono.wav"@;
    reveal_strlit("-16k-mono.wav");
    let name = stem + tail;
    assert(default_output_file_name(Some(stem)) == name);
    assert forall|i: int| 0 <= i < name.len() implies name[i] != '/' && name[i] != '\\' && name[i]
        != ':' by {
        if i < stem.len() {
            assert(stem[i] == file[i]);
        }
    }
    assert(name.len() > 2);
}

/// A position that `last_index_of` gives lies in the sequence and holds the character.
proof fn lemma_last_index_in_range(s: Seq<char>, c: char)
    ensures
        last_index_of(s, c) matches Some(i) ==> 0 <= i < s.len() && s[i] == c,
    decreases s.len(),
{
    if s.len() > 0 && s.last() != c {
        lemma_last_index_in_range(s.drop_last(), c);
    }
}

/// The speech-optimized WAV path used when no output is given: the input's
/// path with its file name replaced by `default_output_name` of its stem. For a
/// simple path the result is stated exactly, up to the separator the platform
/// inserts; other paths follow the platform's own path syntax.
pub fn default_output_path(input: &str) -> (out: String)
    ensures
        default_output_of(input@, out@),
{
    let stem = file_stem(input);
    let name = match &stem {
        Some(s) => default_output_name(Some(s.as_str())),
        None => default_output_name(None),
    };
    let out = with_file_name(input, name.as_str());
    proof {
        if simple_path(input@) {
            lemma_default_name_plain(file_part(input@));
        }
    }
    out
}

/// The output path: the one given, or the default beside the input.
pub fn output_path(input: &str, output: Option<&str>) -> (out: String)
    ensures
        output matches Some(o) ==> out@ == o@,
        output is None ==> default_output_of(input@, out@),
{
    match output {
        Some(o) => {
            let c = chars_of(o);
            string_of(c.as_slice())
        },
        None => default_output_path(input),
    }
}

/// Why the conversion must not run, checked in this order: the input file is
/// missing, the output already exists, or the output's directory is missing.
pub open spec fn preflight_error(
    input: Seq<char>,
    input_is_file: bool,
    output: Seq<char>,
    output_exists: bool,
    missing_directory: Option<Seq<char>>,
) -> Option<Seq<char>> {
    if !input_is_file {
        Some("Input audio file does not exist: "@ + input)
    } else if output_exists {
        Some("Refusing to overwrite existing output file: "@ + output)
    } else {
        match missing_directory {
            Some(d) => Some("Output directory does not exist: "@ + d),
            None => None,
        }
    }
}

/// Checks that the conversion may run; `missing_directory` is the output's
/// parent directory when it is named but does not exist.
pub fn preflight(
    input: &str,
    input_is_file: bool,
    output: &str,
    output_exists: bool,
    missing_directory: Option<&str>,
) -> (r: Result<(), String>)
    ensures
        match r {
            Ok(()) => preflight_error(input@, input_is_file, output@, output_exists, match missing_directory {
                Some(d) => Some(d@),
                None => None,
            }) is None,
            Err(m) => preflight_error(input@, input_is_file, output@, output_exists, match missing_directory {
                Some(d) => Some(d@),
                None => None,
            }) == Some(m@),
        },
{
    let mut m = String::new();
    if !input_is_file {
        push_str(&mut m, "Input audio file does not exist: ");
        push_str(&mut m, input);
        return Err(m);
    }
    if output_exists {
        push_str(&mut m, "Refusing to overwrite existing output file: ");
        push_str(&mut m, output);
        return Err(m);
    }
    match missing_directory {
        Some(d) => {
            push_str(&mut m, "Output directory does not exist: ");
            push_str(&mut m, d);
            Err(m)
        },
        None => Ok(()),
    }
}

/// The `afconvert` arguments that write mono 16 kHz little-endian 16-bit WAV.
pub fn afconvert_arguments(input: &str, output: &str) -> (args: Vec<String>)
    ensures
        args@.len() == 8,
        args@[0]@ == "-f"@,
        args@[1]@ == "WAVE"@,
        args@[2]@ == "-d"@,
        args@[3]@ == "LEI16@16000"@,
        args@[4]@ == "-c"@,
        args@[5]@ == "1"@,
        args@[6]@ == input@,
        args@[7]@ == output@,
{
    let mut args: Vec<String> = Vec::new();
    args.push(copy_text("-f"));
    args.push(copy_text("WAVE"));
    args.push(copy_text("-d"));
    args.push(copy_text("LEI16@16000"));
    args.push(copy_text("-c"));
    args.push(copy_text("1"));
    args.push(copy_text(input));
    args.push(copy_text(output));
    args
}

fn copy_text(s: &str) -> (r: String)
    ensures
        r@ == s@,
{
    let c = chars_of(s);
    string_of(c.as_slice())
}

/// The error for an unsuccessful `afconvert` run: its trimmed standard error,
/// or its exit status when that is empty.
pub open spec fn afconvert_error(status: Seq<char>, stderr: Seq<char>) -> Seq<char> {
    if trim(stderr).len() == 0 {
        "afconvert failed with status "@ + status
    } else {
        "afconvert failed: "@ + trim(stderr)
    }
}

/// The message for an unsuccessful `afconvert` run.
pub fn afconvert_failure(status: &str, stderr: &str) -> (m: String)
    ensures
        m@ == afconvert_error(status@, stderr@),
{
    let details = trim_chars(chars_of(stderr).as_slice());
    let mut m = String::new();
    if details.len() == 0 {
        push_str(&mut m, "afconvert failed with status ");
        push_str(&mut m, status);
    } else {
        push_str(&mut m, "afconvert failed: ");
        let n = details.len();
        push_chars(&mut m, details.as_slice(), 0, n);
        assert(details@.subrange(0, n as int) =~= details@);
    }
    m
}

} // verus!

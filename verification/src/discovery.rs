//! Naming rules for the libraries that the linker's toolchain reports at
//! build time.
//!
//! The toolchain's configuration utility prints file names and flags; the
//! functions here turn each into the bare library name that a link directive
//! wants, or say that it has no such form.

use vstd::prelude::*;

verus! {

/// The text inside an optional string.
pub open spec fn text_of(name: Option<String>) -> Option<Seq<char>> {
    match name {
        Some(s) => Some(s@),
        None => None,
    }
}

/// Whether `pattern` stands in `text` at position `at`.
pub open spec fn occurs_at(text: Seq<char>, at: int, pattern: Seq<char>) -> bool {
    0 <= at && at + pattern.len() <= text.len() && text.subrange(at, at + pattern.len())
        == pattern
}

/// The characters of a text, one by one.
fn chars_of(s: &str) -> (v: Vec<char>)
    ensures
        v@ == s@,
{
    let n = s.unicode_len();
    let mut v: Vec<char> = Vec::new();
    let mut i: usize = 0;
    while i < n
        invariant
            i <= n,
            n == s@.len(),
            v@ == s@.subrange(0, i as int),
        decreases n - i,
    {
        v.push(s.get_char(i));
        assert(v@ == s@.subrange(0, i + 1));
        i += 1;
    }
    assert(s@.subrange(0, n as int) == s@);
    v
}

/// Tests whether `pattern` stands in `text` at position `at`.
fn stands_at(text: &Vec<char>, at: usize, pattern: &Vec<char>) -> (b: bool)
    ensures
        b == occurs_at(text@, at as int, pattern@),
{
    if pattern.len() > text.len() || at > text.len() - pattern.len() {
        return false;
    }
    let mut k: usize = 0;
    while k < pattern.len()
        invariant
            k <= pattern.len(),
            at + pattern.len() <= text.len(),
            forall|j: int| 0 <= j < k ==> text@[at + j] == pattern@[j],
        decreases pattern.len() - k,
    {
        if text[at + k] != pattern[k] {
            assert(text@.subrange(at as int, at + pattern.len())[k as int] != pattern@[k as int]);
            return false;
        }
        k += 1;
    }
    assert(text@.subrange(at as int, at + pattern.len()) =~= pattern@);
    true
}

/// Tests whether `text` begins with `pattern`.
fn begins_with(text: &Vec<char>, pattern: &str) -> (b: bool)
    ensures
        b == pattern@.is_prefix_of(text@),
{
    let p = chars_of(pattern);
    stands_at(text, 0, &p)
}

/// Tests whether `text` ends with `pattern`.
fn ends_with(text: &Vec<char>, pattern: &str) -> (b: bool)
    ensures
        b == pattern@.is_suffix_of(text@),
{
    let p = chars_of(pattern);
    if p.len() > text.len() {
        return false;
    }
    stands_at(text, text.len() - p.len(), &p)
}

/// The texts of a list of strings.
pub open spec fn texts(list: Seq<String>) -> Seq<Seq<char>> {
    Seq::new(list.len(), |i: int| list[i]@)
}

/// The characters at which the toolchain's output is cut: space and newline.
pub open spec fn is_separator(c: char) -> bool {
    c == ' ' || c == '\n'
}

/// The pieces between the separators of `text`, in order, empty ones
/// included: read from left to right, a separator opens a new piece and any
/// other character extends the last one.
pub open spec fn pieces(text: Seq<char>) -> Seq<Seq<char>>
    decreases text.len(),
{
    if text.len() == 0 {
        seq![Seq::<char>::empty()]
    } else {
        let before = pieces(text.drop_last());
        if is_separator(text.last()) {
            before.push(Seq::<char>::empty())
        } else {
            before.drop_last().push(before.last().push(text.last()))
        }
    }
}

/// There is always a piece, and no piece holds a separator.
pub proof fn lemma_pieces_hold_no_separator(text: Seq<char>)
    ensures
        pieces(text).len() >= 1,
        forall|i: int, j: int|
            0 <= i < pieces(text).len() && 0 <= j < pieces(text)[i].len() ==> !is_separator(
                #[trigger] pieces(text)[i][j],
            ),
    decreases text.len(),
{
    if text.len() > 0 {
        lemma_pieces_hold_no_separator(text.drop_last());
    }
}

/// Which pieces of an output a reader keeps.
#[derive(Debug, Clone, Copy, PartialEq, Eq, Structural)]
pub enum Keep {
    /// Every piece that is not empty.
    Words,
    /// Every piece that is not empty and does not begin with `/`.
    RelativeWords,
    /// Every piece that does not begin with `-W`.
    NoWarnings,
}

/// Whether the rule keeps the piece.
pub open spec fn keeps(rule: Keep, piece: Seq<char>) -> bool {
    match rule {
        Keep::Words => piece.len() > 0,
        Keep::RelativeWords => piece.len() > 0 && !"/"@.is_prefix_of(piece),
        Keep::NoWarnings => !"-W"@.is_prefix_of(piece),
    }
}

/// The pieces of `text` that the rule keeps, in order.
pub open spec fn kept_pieces(rule: Keep, text: Seq<char>) -> Seq<Seq<char>> {
    pieces(text).filter(|piece: Seq<char>| keeps(rule, piece))
}

/// The pieces with one space between each two.
pub open spec fn joined(list: Seq<Seq<char>>) -> Seq<char>
    decreases list.len(),
{
    if list.len() == 0 {
        Seq::<char>::empty()
    } else if list.len() == 1 {
        list[0]
    } else {
        joined(list.drop_last()) + " "@ + list.last()
    }
}

/// Cuts `text` at every separator.
pub fn split_pieces(text: &str) -> (out: Vec<String>)
    ensures
        texts(out@) == pieces(text@),
{
    let chars = chars_of(text);
    let n = chars.len();
    let mut out: Vec<String> = Vec::new();
    let mut start: usize = 0;
    let mut i: usize = 0;
    assert(text@.take(0).len() == 0);
    assert(text@.subrange(0, 0) =~= Seq::<char>::empty());
    while i < n
        invariant
            start <= i <= n,
            n == text@.len(),
            chars@ == text@,
            pieces(text@.take(i as int)).len() == out@.len() + 1,
            forall|k: int| 0 <= k < out@.len() ==> (#[trigger] out@[k])@ == pieces(text@.take(i as int))[k],
            pieces(text@.take(i as int)).last() == text@.subrange(start as int, i as int),
        decreases n - i,
    {
        let ghost before = pieces(text@.take(i as int));
        proof {
            assert(text@.take(i + 1).drop_last() == text@.take(i as int));
            assert(text@.take(i + 1).last() == text@[i as int]);
        }
        let c: char = chars[i];
        if c == ' ' || c == '\n' {
            out.push(String::from_str(text.substring_char(start, i)));
            start = i + 1;
            assert(text@.subrange(i + 1, i + 1) =~= Seq::<char>::empty());
        } else {
            assert(text@.subrange(start as int, i as int).push(text@[i as int]) =~= text@.subrange(
                start as int,
                i + 1,
            ));
        }
        i += 1;
    }
    out.push(String::from_str(text.substring_char(start, n)));
    assert(text@.take(n as int) == text@);
    assert(texts(out@) =~= pieces(text@));
    out
}

/// Tests whether the rule keeps the piece.
fn is_kept(rule: Keep, piece: &str) -> (b: bool)
    ensures
        b == keeps(rule, piece@),
{
    match rule {
        Keep::Words => !piece.is_empty(),
        Keep::RelativeWords => !piece.is_empty() && !begins_with(&chars_of(piece), "/"),
        Keep::NoWarnings => !begins_with(&chars_of(piece), "-W"),
    }
}

/// Cuts `text` at every separator and keeps the pieces that the rule names.
pub fn split_and_keep(rule: Keep, text: &str) -> (out: Vec<String>)
    ensures
        texts(out@) == kept_pieces(rule, text@),
{
    let all = split_pieces(text);
    let ghost pred = |piece: Seq<char>| keeps(rule, piece);
    let mut out: Vec<String> = Vec::new();
    let mut k: usize = 0;
    proof {
        reveal_with_fuel(Seq::filter, 2);
        assert(texts(all@).take(0).len() == 0);
        assert(texts(out@) =~= texts(all@).take(0).filter(pred));
    }
    while k < all.len()
        invariant
            k <= all.len(),
            pred == |piece: Seq<char>| keeps(rule, piece),
            texts(out@) == texts(all@).take(k as int).filter(pred),
        decreases all.len() - k,
    {
        proof {
            reveal_with_fuel(Seq::filter, 2);
            let t = texts(all@);
            assert(t.take(k + 1).drop_last() == t.take(k as int));
            assert(t.take(k + 1).last() == all@[k as int]@);
        }
        let ghost prior = texts(out@);
        if is_kept(rule, all[k].as_str()) {
            out.push(all[k].clone());
            assert(texts(out@) =~= prior.push(all@[k as int]@));
        }
        k += 1;
    }
    assert(texts(all@).take(all@.len() as int) == texts(all@));
    out
}

/// The file names in the toolchain's list of libraries.
pub fn library_files(output: &str) -> (out: Vec<String>)
    ensures
        texts(out@) == kept_pieces(Keep::Words, output@),
{
    split_and_keep(Keep::Words, output)
}

/// The flags in the toolchain's list of system libraries that are not
/// absolute paths.
pub fn system_flags(output: &str) -> (out: Vec<String>)
    ensures
        texts(out@) == kept_pieces(Keep::RelativeWords, output@),
{
    split_and_keep(Keep::RelativeWords, output)
}

/// The toolchain's compiler flags without those that switch warnings,
/// written with one space between each two.
pub fn clean_cxxflags(output: &str) -> (flags: String)
    ensures
        flags@ == joined(kept_pieces(Keep::NoWarnings, output@)),
{
    let words = split_and_keep(Keep::NoWarnings, output);
    let mut flags = String::new();
    let mut k: usize = 0;
    assert(texts(words@).take(0).len() == 0);
    while k < words.len()
        invariant
            k <= words.len(),
            flags@ == joined(texts(words@).take(k as int)),
        decreases words.len() - k,
    {
        proof {
            let t = texts(words@);
            assert(t.take(k + 1).drop_last() == t.take(k as int));
            assert(t.take(k + 1).last() == words@[k as int]@);
        }
        if k > 0 {
            flags.append(" ");
        }
        flags.append(words[k].as_str());
        k += 1;
    }
    assert(texts(words@).take(words@.len() as int) == texts(words@));
    flags
}

/// The library name in the file name of a static library: on MSVC targets
/// `NAME.lib` gives `NAME`, elsewhere `libNAME.a` gives `NAME`. A file name
/// of another shape has none.
pub open spec fn static_name_of(file: Seq<char>, msvc: bool) -> Option<Seq<char>> {
    if msvc {
        if ".lib"@.is_suffix_of(file) {
            Some(file.subrange(0, file.len() - 4))
        } else {
            None
        }
    } else {
        if "lib"@.is_prefix_of(file) && ".a"@.is_suffix_of(file) {
            Some(file.subrange(3, file.len() - 2))
        } else {
            None
        }
    }
}

/// A name that begins with `lib` and ends with `.a` has room for both.
proof fn lemma_archive_shape(file: Seq<char>)
    requires
        "lib"@.is_prefix_of(file),
        ".a"@.is_suffix_of(file),
    ensures
        file.len() >= 5,
{
    reveal_strlit("lib");
    reveal_strlit(".a");
    let n = file.len() as int;
    let head = file.subrange(0, 3);
    let tail = file.subrange(n - 2, n);
    assert(head[1] == 'i' && head[2] == 'b');
    assert(tail[0] == '.');
    assert(file[1] == 'i' && file[2] == 'b');
    assert(file[n - 2] == '.');
}

/// The library name in the file name of a static library, if it has one.
pub fn static_library_name(file: &str, msvc: bool) -> (r: Option<String>)
    ensures
        text_of(r) == static_name_of(file@, msvc),
{
    let chars = chars_of(file);
    let n = chars.len();
    if msvc {
        if ends_with(&chars, ".lib") {
            proof {
                reveal_strlit(".lib");
            }
            Some(String::from_str(file.substring_char(0, n - 4)))
        } else {
            None
        }
    } else {
        if begins_with(&chars, "lib") && ends_with(&chars, ".a") {
            proof {
                lemma_archive_shape(file@);
            }
            Some(String::from_str(file.substring_char(3, n - 2)))
        } else {
            None
        }
    }
}

/// The library names for the toolchain's list of static libraries, in the
/// list's order. There are none if some file name in the list has no name.
pub open spec fn link_names_of(output: Seq<char>, msvc: bool) -> Option<Seq<Seq<char>>> {
    let files = kept_pieces(Keep::Words, output);
    if forall|i: int| 0 <= i < files.len() ==> static_name_of(#[trigger] files[i], msvc) is Some {
        Some(Seq::new(files.len(), |i: int| static_name_of(files[i], msvc)->Some_0))
    } else {
        None
    }
}

/// The library names for the toolchain's list of static libraries, or
/// nothing if a file name in it is not that of a static library.
pub fn link_libraries(output: &str, msvc: bool) -> (r: Option<Vec<String>>)
    ensures
        match r {
            Some(names) => link_names_of(output@, msvc) == Some(texts(names@)),
            None => link_names_of(output@, msvc) is None,
        },
{
    let files = library_files(output);
    let ghost all = texts(files@);
    let mut names: Vec<String> = Vec::new();
    let mut k: usize = 0;
    while k < files.len()
        invariant
            k <= files.len(),
            all == texts(files@),
            all == kept_pieces(Keep::Words, output@),
            names@.len() == k,
            forall|i: int| 0 <= i < k ==> static_name_of(#[trigger] all[i], msvc) == Some(names@[i]@),
        decreases files.len() - k,
    {
        match static_library_name(files[k].as_str(), msvc) {
            Some(name) => {
                names.push(name);
            },
            None => {
                assert(static_name_of(all[k as int], msvc) is None);
                return None;
            },
        }
        k += 1;
    }
    assert(texts(names@) =~= Seq::new(all.len(), |i: int| static_name_of(all[i], msvc)->Some_0));
    Some(names)
}

/// Whether `pattern` stands somewhere in `text`.
pub open spec fn occurs_in(text: Seq<char>, pattern: Seq<char>) -> bool {
    exists|at: int| occurs_at(text, at, pattern)
}

/// Tests whether `pattern` stands somewhere in `text`.
fn holds(text: &str, pattern: &str) -> (b: bool)
    ensures
        b == occurs_in(text@, pattern@),
{
    let chars = chars_of(text);
    let p = chars_of(pattern);
    let mut at: usize = 0;
    while at < chars.len()
        invariant
            at <= chars.len(),
            chars@ == text@,
            p@ == pattern@,
            forall|k: int| 0 <= k < at ==> !occurs_at(text@, k, pattern@),
        decreases chars.len() - at,
    {
        if stands_at(&chars, at, &p) {
            return true;
        }
        at += 1;
    }
    stands_at(&chars, at, &p)
}

/// Whether a static library is left out of the link: the line editor is,
/// under whatever name it comes.
pub fn is_blacklisted(name: &str) -> (b: bool)
    ensures
        b == occurs_in(name@, "LLVMLineEditor"@),
{
    holds(name, "LLVMLineEditor")
}

/// Whether the build mode that the toolchain reports is a debug build.
pub fn is_debug_mode(mode: &str) -> (b: bool)
    ensures
        b == occurs_in(mode@, "Debug"@),
{
    holds(mode, "Debug")
}

/// The toolchain version that a major version of this crate stands for: its
/// tens are the toolchain's major version and its units the minor version.
pub fn toolchain_version(crate_major: u64) -> (version: (u64, u64))
    ensures
        version.0 == crate_major / 10,
        version.1 == crate_major % 10,
{
    (crate_major / 10, crate_major % 10)
}

/// The library name in one flag of the system libraries list. On MSVC
/// targets `NAME.lib` gives `NAME`. Elsewhere `-lNAME` gives `NAME`, and on
/// macOS `-llibNAME.tbd` gives `NAME`. Any other flag names no library by
/// itself: elsewhere than on MSVC it is the path of a shared library.
pub open spec fn system_name_of(flag: Seq<char>, msvc: bool, macos: bool) -> Option<Seq<char>> {
    if msvc {
        if ".lib"@.is_suffix_of(flag) {
            Some(flag.subrange(0, flag.len() - 4))
        } else {
            None
        }
    } else if "-l"@.is_prefix_of(flag) {
        if macos && "-llib"@.is_prefix_of(flag) && ".tbd"@.is_suffix_of(flag) {
            Some(flag.subrange(5, flag.len() - 4))
        } else {
            Some(flag.subrange(2, flag.len() as int))
        }
    } else {
        None
    }
}

/// A flag that begins with `-llib` and ends with `.tbd` has room for both.
proof fn lemma_stub_shape(flag: Seq<char>)
    requires
        "-llib"@.is_prefix_of(flag),
        ".tbd"@.is_suffix_of(flag),
    ensures
        flag.len() >= 9,
{
    reveal_strlit("-llib");
    reveal_strlit(".tbd");
    let n = flag.len() as int;
    let head = flag.subrange(0, 5);
    let tail = flag.subrange(n - 4, n);
    assert(head[0] == '-' && head[1] == 'l' && head[2] == 'l' && head[3] == 'i' && head[4] == 'b');
    assert(tail[0] == '.');
    assert(flag[1] == 'l' && flag[2] == 'l' && flag[3] == 'i' && flag[4] == 'b');
    assert(flag[n - 4] == '.');
}

/// The library name in one flag of the system libraries list, if the flag
/// names a library.
pub fn system_library_name(flag: &str, msvc: bool, macos: bool) -> (r: Option<String>)
    ensures
        text_of(r) == system_name_of(flag@, msvc, macos),
{
    let chars = chars_of(flag);
    let n = chars.len();
    if msvc {
        if ends_with(&chars, ".lib") {
            proof {
                reveal_strlit(".lib");
            }
            Some(String::from_str(flag.substring_char(0, n - 4)))
        } else {
            None
        }
    } else if begins_with(&chars, "-l") {
        proof {
            reveal_strlit("-l");
        }
        if macos && begins_with(&chars, "-llib") && ends_with(&chars, ".tbd") {
            proof {
                lemma_stub_shape(flag@);
            }
            Some(String::from_str(flag.substring_char(5, n - 4)))
        } else {
            Some(String::from_str(flag.substring_char(2, n)))
        }
    } else {
        None
    }
}

/// The file name extension of shared libraries on the target.
pub open spec fn dylib_extension_of(macos: bool) -> Seq<char> {
    if macos {
        ".dylib"@
    } else {
        ".so"@
    }
}

/// The file name extension of shared libraries on the target.
pub fn target_dylib_extension(macos: bool) -> (ext: &'static str)
    ensures
        ext@ == dylib_extension_of(macos),
{
    if macos {
        ".dylib"
    } else {
        ".so"
    }
}

/// The greatest position up to `upto` at which `pattern` stands in `text`,
/// or -1 if there is none.
pub open spec fn last_occurrence(text: Seq<char>, pattern: Seq<char>, upto: int) -> int
    decreases upto + 1,
{
    if upto < 0 {
        -1
    } else if occurs_at(text, upto, pattern) {
        upto
    } else {
        last_occurrence(text, pattern, upto - 1)
    }
}

/// What `last_occurrence` finds is an occurrence, and no later one exists up
/// to the bound; -1 means that there is none at all up to the bound.
pub proof fn lemma_last_occurrence_is_greatest(text: Seq<char>, pattern: Seq<char>, upto: int)
    ensures
        -1 <= last_occurrence(text, pattern, upto),
        upto >= -1 ==> last_occurrence(text, pattern, upto) <= upto,
        last_occurrence(text, pattern, upto) >= 0 ==> occurs_at(
            text,
            last_occurrence(text, pattern, upto),
            pattern,
        ),
        forall|k: int|
            last_occurrence(text, pattern, upto) < k <= upto && 0 <= k ==> !occurs_at(
                text,
                k,
                pattern,
            ),
    decreases upto + 1,
{
    if upto >= 0 && !occurs_at(text, upto, pattern) {
        lemma_last_occurrence_is_greatest(text, pattern, upto - 1);
    }
}

/// `text` without any `lib` that it begins with, however often repeated.
pub open spec fn without_lib(text: Seq<char>) -> Seq<char>
    decreases text.len(),
{
    if text.len() >= 3 && "lib"@.is_prefix_of(text) {
        without_lib(text.skip(3))
    } else {
        text
    }
}

/// The library name in the file name of a shared library: what stands
/// before the last occurrence of the target's extension, without any leading
/// `lib`. A file name without the extension has none.
pub open spec fn shared_name_of(file: Seq<char>, macos: bool) -> Option<Seq<char>> {
    let at = last_occurrence(file, dylib_extension_of(macos), file.len() as int);
    if at < 0 {
        None
    } else {
        Some(without_lib(file.subrange(0, at)))
    }
}

/// The library name in the file name of a shared library, if it has one.
pub fn shared_library_name(file: &str, macos: bool) -> (r: Option<String>)
    ensures
        text_of(r) == shared_name_of(file@, macos),
{
    let chars = chars_of(file);
    let ext = chars_of(target_dylib_extension(macos));
    let n = chars.len();
    let mut at: usize = n;
    let mut found = stands_at(&chars, at, &ext);
    while !found && at > 0
        invariant
            at <= n,
            n == file@.len(),
            chars@ == file@,
            ext@ == dylib_extension_of(macos),
            found == occurs_at(chars@, at as int, ext@),
            last_occurrence(file@, ext@, n as int) == last_occurrence(file@, ext@, at as int),
        decreases at,
    {
        at -= 1;
        found = stands_at(&chars, at, &ext);
    }
    if !found {
        assert(last_occurrence(file@, ext@, -1) == -1);
        return None;
    }
    let stem = file.substring_char(0, at);
    let stem_chars = chars_of(stem);
    let lib = chars_of("lib");
    let mut start: usize = 0;
    proof {
        reveal_strlit("lib");
        assert(stem@.skip(0) == stem@);
    }
    while stands_at(&stem_chars, start, &lib)
        invariant
            start <= stem_chars.len(),
            stem_chars@ == stem@,
            lib@ == "lib"@,
            lib@.len() == 3,
            without_lib(stem@) == without_lib(stem@.skip(start as int)),
        decreases stem_chars.len() - start,
    {
        proof {
            let rest = stem@.skip(start as int);
            assert(rest.subrange(0, 3) == stem@.subrange(start as int, start + 3));
            assert(rest.skip(3) == stem@.skip(start + 3));
        }
        start += 3;
    }
    proof {
        let rest = stem@.skip(start as int);
        if rest.len() >= 3 {
            assert(rest.subrange(0, 3) == stem@.subrange(start as int, start + 3));
        }
        assert(rest == stem@.subrange(start as int, stem@.len() as int));
    }
    Some(String::from_str(stem.substring_char(start, stem_chars.len())))
}

/// The name of the C++ runtime library that the target links against: none
/// on MSVC, `c++` on macOS and FreeBSD, `stdc++` elsewhere.
pub open spec fn libcpp_of(msvc: bool, macos: bool, freebsd: bool) -> Option<Seq<char>> {
    if msvc {
        None
    } else if macos || freebsd {
        Some("c++"@)
    } else {
        Some("stdc++"@)
    }
}

/// The name of the C++ runtime library that the target links against.
pub fn system_libcpp(msvc: bool, macos: bool, freebsd: bool) -> (r: Option<&'static str>)
    ensures
        match r {
            Some(name) => libcpp_of(msvc, macos, freebsd) == Some(name@),
            None => libcpp_of(msvc, macos, freebsd) is None,
        },
{
    if msvc {
        None
    } else if macos {
        Some("c++")
    } else if freebsd {
        Some("c++")
    } else {
        Some("stdc++")
    }
}

} // verus!

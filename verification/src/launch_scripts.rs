//! What the scripts that launch OpenClaw in a sandbox must hold.

use vstd::prelude::*;

verus! {

/// The bytes of a text.
pub open spec fn utf8(text: Seq<char>) -> Seq<u8> {
    vstd::utf8::encode_utf8(text)
}

/// Whether `pattern` stands in `text` from byte `at` on.
pub open spec fn occurs_at(text: Seq<u8>, pattern: Seq<u8>, at: int) -> bool {
    0 <= at && at + pattern.len() <= text.len() && text.subrange(at, at + pattern.len()) == pattern
}

/// Whether `pattern` stands in `text`.
pub open spec fn occurs(text: Seq<u8>, pattern: Seq<u8>) -> bool {
    exists|at: int| occurs_at(text, pattern, at)
}

/// Whether `at` is the first place in `text` where `pattern` stands.
pub open spec fn first_occurs_at(text: Seq<u8>, pattern: Seq<u8>, at: int) -> bool {
    occurs_at(text, pattern, at) && forall|i: int| 0 <= i < at ==> !occurs_at(text, pattern, i)
}

fn bytes_occur_at(text: &[u8], pattern: &[u8], at: usize) -> (found: bool)
    requires
        at + pattern@.len() <= text@.len(),
    ensures
        found == occurs_at(text@, pattern@, at as int),
{
    let text_len: usize = text.len();
    let mut i: usize = 0;
    while i < pattern.len()
        invariant
            text_len == text@.len(),
            i <= pattern@.len(),
            at + pattern@.len() <= text@.len(),
            forall|j: int| 0 <= j < i ==> text@[at + j] == pattern@[j],
        decreases pattern@.len() - i,
    {
        if text[at + i] != pattern[i] {
            assert(text@.subrange(at as int, at + pattern@.len())[i as int] != pattern@[i as int]);
            return false;
        }
        i = i + 1;
    }
    assert(text@.subrange(at as int, at + pattern@.len()) =~= pattern@);
    true
}

/// Where `pattern` stands first in `text`, in bytes.
pub fn find_text(text: &str, pattern: &str) -> (at: Option<usize>)
    ensures
        at is Some <==> occurs(utf8(text@), utf8(pattern@)),
        at matches Some(i) ==> first_occurs_at(utf8(text@), utf8(pattern@), i as int),
{
    let text_bytes = text.as_bytes();
    let pattern_bytes = pattern.as_bytes();
    if pattern_bytes.len() > text_bytes.len() {
        return None;
    }
    let last: usize = text_bytes.len() - pattern_bytes.len();
    let mut at: usize = 0;
    loop
        invariant
            at <= last,
            last == text_bytes@.len() - pattern_bytes@.len(),
            text_bytes@ == utf8(text@),
            pattern_bytes@ == utf8(pattern@),
            forall|i: int| 0 <= i < at ==> !occurs_at(text_bytes@, pattern_bytes@, i),
        decreases last - at,
    {
        if bytes_occur_at(text_bytes, pattern_bytes, at) {
            return Some(at);
        }
        if at == last {
            return None;
        }
        at = at + 1;
    }
}

/// Whether the capture script makes `realpath` safe for an `AppContainer`, and lets
/// modules see it, before it loads OpenClaw.
pub open spec fn preloads_realpath(capture: Seq<char>) -> bool {
    &&& exists|patch: int, load: int|
        patch < load && #[trigger] first_occurs_at(
            utf8(capture),
            utf8("fs.promises.realpath = promisify(fs.realpath)"@),
            patch,
        ) && #[trigger] first_occurs_at(
            utf8(capture),
            utf8("await import(pathToFileURL(entry).href)"@),
            load,
        )
    &&& occurs(utf8(capture), utf8("syncBuiltinESMExports()"@))
}

/// Whether the capture script makes `realpath` safe for an `AppContainer`, and lets
/// modules see it, before it loads OpenClaw.
pub fn capture_preloads_realpath(capture: &str) -> (safe: bool)
    ensures
        safe == preloads_realpath(capture@),
{
    let patch = find_text(capture, "fs.promises.realpath = promisify(fs.realpath)");
    let load = find_text(capture, "await import(pathToFileURL(entry).href)");
    let synced = find_text(capture, "syncBuiltinESMExports()");
    match (patch, load) {
        (Some(p), Some(l)) => p < l && synced.is_some(),
        _ => false,
    }
}

/// Whether the runner script grants the package groups write access to the data
/// directories, and to no more of the shared directory than those.
pub open spec fn limits_grants(runner: Seq<char>) -> bool {
    let text = utf8(runner);
    &&& occurs(text, utf8("*S-1-15-2-1:(OI)(CI)(M)"@))
    &&& occurs(text, utf8("*S-1-15-2-2:(OI)(CI)(M)"@))
    &&& occurs(
        text,
        utf8("Grant-AppContainerWritableDirectory (Join-Path $shareDirNorm \"home\")"@),
    )
    &&& occurs(
        text,
        utf8("Grant-AppContainerWritableDirectory (Join-Path $shareDirNorm \"temp\")"@),
    )
    &&& !occurs(text, utf8("Grant-AppContainerWritableDirectory $shareDirNorm"@))
}

/// Whether the runner script grants the package groups write access to the data
/// directories, and to no more of the shared directory than those.
pub fn runner_limits_grants(runner: &str) -> (limited: bool)
    ensures
        limited == limits_grants(runner@),
{
    find_text(runner, "*S-1-15-2-1:(OI)(CI)(M)").is_some() && find_text(
        runner,
        "*S-1-15-2-2:(OI)(CI)(M)",
    ).is_some() && find_text(
        runner,
        "Grant-AppContainerWritableDirectory (Join-Path $shareDirNorm \"home\")",
    ).is_some() && find_text(
        runner,
        "Grant-AppContainerWritableDirectory (Join-Path $shareDirNorm \"temp\")",
    ).is_some() && find_text(
        runner,
        "Grant-AppContainerWritableDirectory $shareDirNorm",
    ).is_none()
}

/// A pattern stands in a text exactly where the text is the pattern with something,
/// or nothing, before it and behind it; it stands at a place exactly where as many
/// bytes are before it.
pub proof fn law_to_occur_is_to_be_a_part(text: Seq<u8>, pattern: Seq<u8>, at: int)
    ensures
        occurs(text, pattern) <==> exists|before: Seq<u8>, after: Seq<u8>|
            text == #[trigger] (before + pattern + after),
        occurs_at(text, pattern, at) <==> exists|before: Seq<u8>, after: Seq<u8>|
            before.len() == at && text == #[trigger] (before + pattern + after),
{
    assert forall|i: int| #[trigger] occurs_at(text, pattern, i) implies exists|
        before: Seq<u8>,
        after: Seq<u8>,
    | before.len() == i && text == #[trigger] (before + pattern + after) by {
        let before = text.take(i);
        let after = text.skip(i + pattern.len());
        assert(text =~= before + pattern + after) by {
            assert(pattern =~= text.subrange(i, i + pattern.len()));
        }
    }
    assert forall|before: Seq<u8>, after: Seq<u8>|
        text == #[trigger] (before + pattern + after) implies occurs_at(
        text,
        pattern,
        before.len() as int,
    ) by {
        let i = before.len() as int;
        assert((before + pattern + after).subrange(i, i + pattern.len()) =~= pattern);
    }
}

/// The first place of a pattern is one where it stands, and no earlier one is.
pub proof fn law_first_place_is_the_lowest(text: Seq<u8>, pattern: Seq<u8>, at: int, other: int)
    requires
        first_occurs_at(text, pattern, at),
    ensures
        occurs_at(text, pattern, at),
        occurs_at(text, pattern, other) ==> at <= other,
{
}

proof fn lemma_first_place(text: Seq<u8>, pattern: Seq<u8>, at: int)
    requires
        occurs_at(text, pattern, at),
    ensures
        exists|i: int| i <= at && first_occurs_at(text, pattern, i),
    decreases at,
{
    if exists|i: int| 0 <= i < at && occurs_at(text, pattern, i) {
        let i = choose|i: int| 0 <= i < at && occurs_at(text, pattern, i);
        lemma_first_place(text, pattern, i);
    } else {
        assert(first_occurs_at(text, pattern, at));
    }
}

/// Whether `pattern` stands in `text` at no place up to `at`.
pub open spec fn absent_up_to(text: Seq<u8>, pattern: Seq<u8>, at: int) -> bool {
    forall|i: int| i <= at ==> !(#[trigger] occurs_at(text, pattern, i))
}

/// A capture script passes exactly where it loads OpenClaw, makes `realpath` safe at a
/// place up to which it does not load OpenClaw, and lets modules see it.
pub proof fn law_realpath_is_safe_before_anything_loads(capture: Seq<char>)
    ensures
        ({
            let script = vstd::utf8::encode_utf8(capture);
            let patch = vstd::utf8::encode_utf8("fs.promises.realpath = promisify(fs.realpath)"@);
            let load = vstd::utf8::encode_utf8("await import(pathToFileURL(entry).href)"@);
            let sync = vstd::utf8::encode_utf8("syncBuiltinESMExports()"@);
            preloads_realpath(capture) <==> {
                &&& occurs(script, load)
                &&& occurs(script, sync)
                &&& exists|p: int|
                    occurs_at(script, patch, p) && #[trigger] absent_up_to(script, load, p)
            }
        }),
{
    let script = utf8(capture);
    let patch = utf8("fs.promises.realpath = promisify(fs.realpath)"@);
    let load = utf8("await import(pathToFileURL(entry).href)"@);
    if preloads_realpath(capture) {
        let (p, l) = choose|p: int, l: int|
            p < l && #[trigger] first_occurs_at(script, patch, p) && #[trigger] first_occurs_at(
                script,
                load,
                l,
            );
        assert(occurs_at(script, load, l));
        assert(occurs_at(script, patch, p) && absent_up_to(script, load, p));
    }
    if occurs(script, load) && exists|p: int|
        occurs_at(script, patch, p) && #[trigger] absent_up_to(script, load, p) {
        let p = choose|p: int|
            occurs_at(script, patch, p) && #[trigger] absent_up_to(script, load, p);
        let l = choose|l: int| occurs_at(script, load, l);
        lemma_first_place(script, patch, p);
        lemma_first_place(script, load, l);
        let first = choose|i: int| i <= p && first_occurs_at(script, patch, i);
        let loads = choose|i: int| i <= l && first_occurs_at(script, load, i);
        assert(occurs_at(script, load, loads));
        assert(first < loads);
    }
}

/// A runner script passes exactly where it grants both package groups write access,
/// does so for the two data directories, and never for the shared directory itself.
pub proof fn law_grants_are_for_data_directories(runner: Seq<char>)
    ensures
        ({
            let holds = |part: Seq<char>|
                occurs(vstd::utf8::encode_utf8(runner), vstd::utf8::encode_utf8(part));
            limits_grants(runner) <==> {
                &&& holds("*S-1-15-2-1:(OI)(CI)(M)"@)
                &&& holds("*S-1-15-2-2:(OI)(CI)(M)"@)
                &&& holds("Grant-AppContainerWritableDirectory (Join-Path $shareDirNorm \"home\")"@)
                &&& holds("Grant-AppContainerWritableDirectory (Join-Path $shareDirNorm \"temp\")"@)
                &&& !holds("Grant-AppContainerWritableDirectory $shareDirNorm"@)
            }
        }),
{
}

} // verus!

use vstd::prelude::*;
use vstd::string::StringSliceAdditionalSpecFns;

verus! {

/// The bytes of `.so`, the ending of the file name of a program image.
pub open spec fn image_ending() -> Seq<u8> {
    seq![0x2eu8, 0x73u8, 0x6fu8]
}

/// The bytes of `Cargo.toml`, the file name of a workspace's manifest.
pub open spec fn manifest_name() -> Seq<u8> {
    seq![0x43u8, 0x61u8, 0x72u8, 0x67u8, 0x6fu8, 0x2eu8, 0x74u8, 0x6fu8, 0x6du8, 0x6cu8]
}

/// Whether a file of the given name holds the image of the program of the
/// given name: the file is named after the program, with `.so` behind, and
/// the program's name is not empty.
pub open spec fn names_image_of(file_name: Seq<u8>, program_name: Seq<u8>) -> bool {
    program_name.len() > 0 && file_name == program_name + image_ending()
}

/// Whether `text` ends with `ending`.
pub open spec fn ends_with(text: Seq<u8>, ending: Seq<u8>) -> bool {
    ending.len() <= text.len() && text.subrange(text.len() - ending.len(), text.len() as int)
        == ending
}

/// Whether `text` holds `part` from position `at` on.
fn holds_at(text: &[u8], at: usize, part: &[u8]) -> (found: bool)
    requires
        at + part@.len() <= text@.len(),
    ensures
        found == (text@.subrange(at as int, at + part@.len()) == part@),
{
    let len = text.len();
    let count = part.len();
    let mut i: usize = 0;
    while i < count
        invariant
            i <= count,
            count == part@.len(),
            len == text@.len(),
            at + count <= len,
            forall|j: int| 0 <= j < i ==> text@[at + j] == part@[j],
        decreases count - i,
    {
        if text[at + i] != part[i] {
            assert(text@.subrange(at as int, at + count)[i as int] != part@[i as int]);
            return false;
        }
        i += 1;
    }
    assert(text@.subrange(at as int, at + count) =~= part@);
    true
}

/// Whether the file named `file_name` holds the image of the program named
/// `program_name`.
pub fn is_program_image(file_name: &str, program_name: &str) -> (found: bool)
    ensures
        found == names_image_of(file_name.spec_bytes(), program_name.spec_bytes()),
{
    let file = file_name.as_bytes();
    let program = program_name.as_bytes();
    let ending: [u8; 3] = [0x2e, 0x73, 0x6f];
    assert(ending@ =~= image_ending());
    if program.len() == 0 || file.len() < 3 || file.len() - 3 != program.len() {
        return false;
    }
    let found = holds_at(file, 0, program) && holds_at(file, program.len(), ending.as_slice());
    proof {
        let joined = program@ + image_ending();
        if found {
            assert(file@ =~= joined);
        }
        if file@ == joined {
            assert(file@.subrange(0, program@.len() as int) =~= program@);
            assert(file@.subrange(program@.len() as int, program@.len() as int + 3) =~= image_ending());
        }
    }
    found
}

/// The length of the directory part of the path of a workspace's manifest:
/// the path without the `Cargo.toml` at its end. `None` where the path does
/// not end so.
pub fn workspace_root_len(manifest_path: &str) -> (root: Option<usize>)
    ensures
        match root {
            Some(len) => ends_with(manifest_path.spec_bytes(), manifest_name()) && len + 10
                == manifest_path.spec_bytes().len(),
            None => !ends_with(manifest_path.spec_bytes(), manifest_name()),
        },
{
    let path = manifest_path.as_bytes();
    let name: [u8; 10] = [0x43, 0x61, 0x72, 0x67, 0x6f, 0x2e, 0x74, 0x6f, 0x6d, 0x6c];
    assert(name@ =~= manifest_name());
    if path.len() < 10 {
        return None;
    }
    let root = path.len() - 10;
    if holds_at(path, root, name.as_slice()) {
        Some(root)
    } else {
        None
    }
}

} // verus!

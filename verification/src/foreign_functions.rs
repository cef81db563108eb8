//! What the solver library is handed: the path of a model file, split
//! into directory and file name and laid out as fixed buffers.

use vstd::prelude::*;

verus! {

/// The byte `/`.
pub const SLASH: u8 = 47;

/// The byte `\`.
pub const BACKSLASH: u8 = 92;

/// The length of the buffers that the solver library reads names from.
pub const NAME_BUFFER: usize = 256;

/// The index of the last `separator` in `path`, or -1 where it has none.
pub open spec fn last_index_of(path: Seq<u8>, separator: u8) -> int
    decreases path.len(),
{
    if path.len() == 0 {
        -1
    } else if path.last() == separator {
        path.len() - 1
    } else {
        last_index_of(path.drop_last(), separator)
    }
}

/// The byte that separates the parts of `path`: `/` where the path
/// holds one, else `\` where it holds one.
pub open spec fn separator_of(path: Seq<u8>) -> Option<u8> {
    if last_index_of(path, SLASH) >= 0 {
        Some(SLASH)
    } else if last_index_of(path, BACKSLASH) >= 0 {
        Some(BACKSLASH)
    } else {
        None
    }
}

/// The directory of `path`: everything up to the last `separator` and
/// that separator, with `/` in place of every separator.
pub open spec fn directory_of(path: Seq<u8>, separator: u8) -> Seq<u8> {
    path.subrange(0, last_index_of(path, separator) + 1).map_values(
        |byte: u8|
            if byte == separator {
                SLASH
            } else {
                byte
            },
    )
}

/// The file name of `path`: everything after the last `separator`.
pub open spec fn file_name_of(path: Seq<u8>, separator: u8) -> Seq<u8> {
    path.subrange(last_index_of(path, separator) + 1, path.len() as int)
}

/// Where `last_index_of` points: at a separator after which none
/// follows, or nowhere in a path that has none.
pub proof fn lemma_last_index_of(path: Seq<u8>, separator: u8)
    ensures
        -1 <= last_index_of(path, separator) < path.len(),
        last_index_of(path, separator) >= 0 ==> path[last_index_of(path, separator)] == separator,
        forall|i: int|
            last_index_of(path, separator) < i < path.len() ==> #[trigger] path[i] != separator,
    decreases path.len(),
{
    if path.len() > 0 && path.last() != separator {
        lemma_last_index_of(path.drop_last(), separator);
        assert forall|i: int| last_index_of(path, separator) < i < path.len() implies #[trigger] path[i]
            != separator by {
            if i < path.len() - 1 {
                assert(path.drop_last()[i] == path[i]);
            }
        }
    }
}

/// The index of the last `separator` in `path`, if it holds one.
pub fn find_last(path: &[u8], separator: u8) -> (found: Option<usize>)
    ensures
        match found {
            Some(index) => index == last_index_of(path@, separator),
            None => last_index_of(path@, separator) == -1,
        },
{
    let mut i: usize = path.len();
    assert(path@.subrange(0, i as int) =~= path@);
    while i > 0
        invariant
            i <= path@.len(),
            last_index_of(path@, separator) == last_index_of(
                path@.subrange(0, i as int),
                separator,
            ),
        decreases i,
    {
        if path[i - 1] == separator {
            return Some(i - 1);
        }
        assert(path@.subrange(0, i as int).drop_last() =~= path@.subrange(0, i - 1));
        i -= 1;
    }
    None
}

/// Splits the path of a file into its directory and its file name. The
/// parts of the path are separated by `/` or, in a path without any, by
/// `\`; the directory is returned with `/` throughout and ends in one. A
/// path without a separator is not split.
pub fn split_path(path: &[u8]) -> (parts: Option<(Vec<u8>, Vec<u8>)>)
    ensures
        match (parts, separator_of(path@)) {
            (Some((directory, file_name)), Some(separator)) => directory@ == directory_of(
                path@,
                separator,
            ) && file_name@ == file_name_of(path@, separator),
            (None, None) => true,
            _ => false,
        },
{
    let (separator, last) = match find_last(path, SLASH) {
        Some(index) => (SLASH, index),
        None => match find_last(path, BACKSLASH) {
            Some(index) => (BACKSLASH, index),
            None => {
                return None;
            },
        },
    };
    proof {
        lemma_last_index_of(path@, separator);
    }
    let mut directory: Vec<u8> = Vec::new();
    let mut i: usize = 0;
    while i <= last
        invariant
            last < path@.len(),
            i <= last + 1,
            directory@.len() == i,
            forall|k: int|
                0 <= k < i ==> #[trigger] directory@[k] == if path@[k] == separator {
                    SLASH
                } else {
                    path@[k]
                },
        decreases last + 1 - i,
    {
        let byte = path[i];
        directory.push(if byte == separator { SLASH } else { byte });
        i += 1;
    }
    let mut file_name: Vec<u8> = Vec::new();
    while i < path.len()
        invariant
            last < i <= path@.len(),
            file_name@.len() == i - last - 1,
            forall|k: int| 0 <= k < file_name@.len() ==> #[trigger] file_name@[k] == path@[last + 1 + k],
        decreases path@.len() - i,
    {
        file_name.push(path[i]);
        i += 1;
    }
    assert(directory@ =~= directory_of(path@, separator));
    assert(file_name@ =~= file_name_of(path@, separator));
    Some((directory, file_name))
}

/// Lays `text` out as the solver library reads a name: in a buffer of
/// [`NAME_BUFFER`] bytes, followed by zeros. A text that leaves no room
/// for the zero that ends it has no such layout.
pub fn name_buffer(text: &[u8]) -> (buffer: Option<[u8; 256]>)
    ensures
        buffer is Some <==> text@.len() < NAME_BUFFER,
        buffer matches Some(bytes) ==> forall|i: int|
            0 <= i < NAME_BUFFER ==> #[trigger] bytes@[i] == if i < text@.len() {
                text@[i]
            } else {
                0u8
            },
{
    if text.len() >= NAME_BUFFER {
        return None;
    }
    let mut bytes: [u8; 256] = [0u8; 256];
    let mut i: usize = 0;
    while i < text.len()
        invariant
            text@.len() < NAME_BUFFER,
            i <= text@.len(),
            forall|k: int|
                0 <= k < NAME_BUFFER ==> #[trigger] bytes@[k] == if k < i {
                    text@[k]
                } else {
                    0u8
                },
        decreases text@.len() - i,
    {
        bytes[i] = text[i];
        i += 1;
    }
    Some(bytes)
}

} // verus!

use crate::error::{not_found_reason, CommandError};
use vstd::prelude::*;

verus! {

/// The fields of `s` between occurrences of `sep`, empty fields included.
pub open spec fn fields(s: Seq<char>, sep: char) -> Seq<Seq<char>>
    decreases s.len(),
{
    if s.len() == 0 {
        seq![Seq::empty()]
    } else {
        let init = fields(s.drop_last(), sep);
        if s.last() == sep {
            init.push(Seq::empty())
        } else {
            init.update(init.len() - 1, init.last().push(s.last()))
        }
    }
}

/// The fields of `s` between occurrences of `sep`, empty fields left out.
pub open spec fn nonempty_fields(s: Seq<char>, sep: char) -> Seq<Seq<char>> {
    fields(s, sep).filter(|f: Seq<char>| f.len() > 0)
}

/// The separator of the entries of a search-path list.
pub open spec fn list_separator() -> char {
    ';'
}

proof fn lemma_fields_len(s: Seq<char>, sep: char)
    ensures
        fields(s, sep).len() >= 1,
    decreases s.len(),
{
    if s.len() > 0 {
        lemma_fields_len(s.drop_last(), sep);
    }
}

/// Splits `target` at every `splitter`, keeping the non-empty pieces in order.
pub fn split_vec(target: &str, splitter: char) -> (r: Vec<String>)
    ensures
        r@.map_values(|p: String| p@) == nonempty_fields(target@, splitter),
{
    let n = target.unicode_len();
    let mut rv: Vec<String> = Vec::new();
    let mut next_slice_begin: usize = 0;
    let mut i: usize = 0;
    while i < n
        invariant
            n == target@.len(),
            next_slice_begin <= i <= n,
            fields(target@.subrange(0, i as int), splitter).last() == target@.subrange(
                next_slice_begin as int,
                i as int,
            ),
            rv@.map_values(|p: String| p@) == fields(target@.subrange(0, i as int), splitter).drop_last().filter(
                |f: Seq<char>| f.len() > 0,
            ),
        decreases n - i,
    {
        let ghost pre = target@.subrange(0, i as int);
        let ghost next = target@.subrange(0, i + 1);
        proof {
            lemma_fields_len(pre, splitter);
            assert(next.drop_last() =~= pre);
        }
        let c = target.get_char(i);
        if c == splitter {
            if next_slice_begin < i {
                let piece = String::from_str(target.substring_char(next_slice_begin, i));
                proof {
                    reveal(Seq::filter);
                    assert(fields(next, splitter).drop_last() =~= fields(pre, splitter));
                }
                rv.push(piece);
                proof {
                    assert(rv@.map_values(|p: String| p@) =~= fields(pre, splitter).drop_last().filter(
                        |f: Seq<char>| f.len() > 0,
                    ).push(piece@));
                }
            } else {
                proof {
                    reveal(Seq::filter);
                    assert(fields(next, splitter).drop_last() =~= fields(pre, splitter));
                }
            }
            next_slice_begin = i + 1;
            proof {
                assert(target@.subrange(next_slice_begin as int, i + 1) =~= Seq::<char>::empty());
            }
        } else {
            proof {
                assert(fields(next, splitter).drop_last() =~= fields(pre, splitter).drop_last());
                assert(target@.subrange(next_slice_begin as int, i + 1) =~= target@.subrange(
                    next_slice_begin as int,
                    i as int,
                ).push(c));
            }
        }
        i = i + 1;
    }
    proof {
        assert(target@.subrange(0, n as int) =~= target@);
        lemma_fields_len(target@, splitter);
        reveal(Seq::filter);
    }
    if next_slice_begin < n {
        let piece = String::from_str(target.substring_char(next_slice_begin, n));
        rv.push(piece);
        proof {
            assert(rv@.map_values(|p: String| p@) =~= fields(target@, splitter).drop_last().filter(
                |f: Seq<char>| f.len() > 0,
            ).push(piece@));
        }
    } else {
        proof {
            assert(rv@.map_values(|p: String| p@) =~= fields(target@, splitter).drop_last().filter(
                |f: Seq<char>| f.len() > 0,
            ));
        }
    }
    rv
}

/// `(a, b)` comes before `(i, j)` in the search order: directories first, then suffixes.
pub open spec fn searched_before(a: int, b: int, i: int, j: int) -> bool {
    a < i || (a == i && b < j)
}

/// `probe`, asked about the file `file` in the directory `dir`, answered `out`.
pub open spec fn probe_answered<F: Fn(&str, &str) -> Option<String>>(
    probe: F,
    dir: Seq<char>,
    file: Seq<char>,
    out: Option<String>,
) -> bool {
    exists|d: &str, f: &str| d@ == dir && f@ == file && #[trigger] probe.ensures((d, f), out)
}

/// `probe` named `found` for the program `name` with suffix `j` in directory
/// `i`, after answering that no candidate searched before that one exists.
pub open spec fn found_first<F: Fn(&str, &str) -> Option<String>>(
    dirs: Seq<Seq<char>>,
    suffixes: Seq<Seq<char>>,
    name: Seq<char>,
    probe: F,
    found: String,
) -> bool {
    exists|i: int, j: int|
        #![trigger dirs[i], suffixes[j]]
        0 <= i < dirs.len() && 0 <= j < suffixes.len() && probe_answered(
            probe,
            dirs[i],
            name + suffixes[j],
            Some(found),
        ) && forall|a: int, b: int|
            0 <= a < dirs.len() && 0 <= b < suffixes.len() && searched_before(a, b, i, j)
                ==> probe_answered(probe, #[trigger] dirs[a], name + #[trigger] suffixes[b], None)
}

/// `probe` answered that no candidate for the program `name` exists.
pub open spec fn none_found<F: Fn(&str, &str) -> Option<String>>(
    dirs: Seq<Seq<char>>,
    suffixes: Seq<Seq<char>>,
    name: Seq<char>,
    probe: F,
) -> bool {
    forall|a: int, b: int|
        0 <= a < dirs.len() && 0 <= b < suffixes.len() ==> probe_answered(
            probe,
            #[trigger] dirs[a],
            name + #[trigger] suffixes[b],
            None,
        )
}

/// When the probe tells exactly which files exist, the file found lies in
/// the first directory that holds the program with any of the suffixes, and
/// has the first suffix that this directory holds it with: a directory
/// earlier in the path wins over a suffix earlier in the priority list.
pub proof fn lemma_directory_priority<F: Fn(&str, &str) -> Option<String>>(
    dirs: Seq<Seq<char>>,
    suffixes: Seq<Seq<char>>,
    name: Seq<char>,
    probe: F,
    exists_file: spec_fn(Seq<char>, Seq<char>) -> bool,
    found: String,
)
    requires
        forall|d: &str, f: &str, out: Option<String>|
            #[trigger] probe.ensures((d, f), out) ==> (out is Some <==> exists_file(d@, f@)),
        found_first(dirs, suffixes, name, probe, found),
    ensures
        exists|i: int, j: int|
            #![trigger dirs[i], suffixes[j]]
            0 <= i < dirs.len() && 0 <= j < suffixes.len() && exists_file(dirs[i], name + suffixes[j])
                && (forall|a: int, b: int|
                0 <= a < i && 0 <= b < suffixes.len() ==> !exists_file(
                    #[trigger] dirs[a],
                    name + #[trigger] suffixes[b],
                )) && (forall|b: int|
                0 <= b < j ==> !exists_file(dirs[i], name + #[trigger] suffixes[b])),
{
    let (i, j) = choose|i: int, j: int|
        #![trigger dirs[i], suffixes[j]]
        0 <= i < dirs.len() && 0 <= j < suffixes.len() && probe_answered(
            probe,
            dirs[i],
            name + suffixes[j],
            Some(found),
        ) && forall|a: int, b: int|
            0 <= a < dirs.len() && 0 <= b < suffixes.len() && searched_before(a, b, i, j)
                ==> probe_answered(probe, #[trigger] dirs[a], name + #[trigger] suffixes[b], None);
    assert forall|a: int, b: int|
        0 <= a < i && 0 <= b < suffixes.len() implies !exists_file(
        #[trigger] dirs[a],
        name + #[trigger] suffixes[b],
    ) by {
        assert(searched_before(a, b, i, j));
        assert(probe_answered(probe, dirs[a], name + suffixes[b], None));
    }
    assert forall|b: int| 0 <= b < j implies !exists_file(dirs[i], name + #[trigger] suffixes[b]) by {
        assert(searched_before(i, b, i, j));
        assert(probe_answered(probe, dirs[i], name + suffixes[b], None));
    }
    assert(exists_file(dirs[i], name + suffixes[j]));
}

/// The search state: the directories of the path variable and the suffixes
/// tried on each program name, in priority order.
pub struct WindowsPathResolver {
    path: Vec<String>,
    extensions: Vec<String>,
}

impl WindowsPathResolver {
    /// The directories searched, in order.
    pub closed spec fn directories(&self) -> Seq<Seq<char>> {
        self.path@.map_values(|d: String| d@)
    }

    /// The suffixes tried on a program name, in order.
    pub closed spec fn suffixes(&self) -> Seq<Seq<char>> {
        self.extensions@.map_values(|e: String| e@)
    }

    /// Builds the search state from the values of the path variable and of the
    /// extension-priority variable: both are lists separated by `;`, and the
    /// bare name is tried after every listed suffix.
    pub fn new(path_variable: &str, extension_variable: &str) -> (r: WindowsPathResolver)
        ensures
            r.directories() == nonempty_fields(path_variable@, list_separator()),
            r.suffixes() == nonempty_fields(extension_variable@, list_separator()).push(
                Seq::empty(),
            ),
    {
        let path = split_vec(path_variable, ';');
        let mut extensions = split_vec(extension_variable, ';');
        let bare = String::new();
        extensions.push(bare);
        let r = WindowsPathResolver { path, extensions };
        proof {
            assert(r.suffixes() =~= nonempty_fields(extension_variable@, list_separator()).push(
                Seq::empty(),
            ));
        }
        r
    }

    /// Resolves a program token that is an explicit path: it is joined to the
    /// current directory, without looking at the file system.
    pub fn resolve_command_local(&self, current_directory: &str, given_path: &str) -> (r: Result<
        String,
        CommandError,
    >)
        ensures
            r matches Ok(p) && p@ == joined_path(current_directory@, given_path@),
    {
        Ok(join_path(current_directory, given_path))
    }

    /// Searches the directories in order and, within each, the suffixes in
    /// order, asking `probe` whether the directory holds the program name with
    /// that suffix. The first answer that names a file is the result; a
    /// directory earlier in the list wins over any suffix.
    pub fn resolve_command_global<F: Fn(&str, &str) -> Option<String>>(
        &self,
        command_name: &str,
        probe: &F,
    ) -> (r: Result<String, CommandError>)
        requires
            forall|d: &str, f: &str| #[trigger] probe.requires((d, f)),
        ensures
            match r {
                Ok(found) => found_first(
                    self.directories(),
                    self.suffixes(),
                    command_name@,
                    *probe,
                    found,
                ),
                Err(e) => e.reason_spec() == not_found_reason() && none_found(
                    self.directories(),
                    self.suffixes(),
                    command_name@,
                    *probe,
                ),
            },
    {
        let dirs = self.path.len();
        let exts = self.extensions.len();
        let mut i: usize = 0;
        while i < dirs
            invariant
                dirs == self.directories().len(),
                exts == self.suffixes().len(),
                i <= dirs,
                forall|d: &str, f: &str| #[trigger] probe.requires((d, f)),
                forall|a: int, b: int|
                    0 <= a < i && 0 <= b < exts ==> probe_answered(
                        *probe,
                        #[trigger] self.directories()[a],
                        command_name@ + #[trigger] self.suffixes()[b],
                        None,
                    ),
            decreases dirs - i,
        {
            let directory = self.path[i].as_str();
            let mut j: usize = 0;
            while j < exts
                invariant
                    dirs == self.directories().len(),
                    exts == self.suffixes().len(),
                    i < dirs,
                    j <= exts,
                    directory@ == self.directories()[i as int],
                    forall|d: &str, f: &str| #[trigger] probe.requires((d, f)),
                    forall|a: int, b: int|
                        0 <= a < self.directories().len() && 0 <= b < exts && searched_before(
                            a,
                            b,
                            i as int,
                            j as int,
                        ) ==> probe_answered(
                            *probe,
                            #[trigger] self.directories()[a],
                            command_name@ + #[trigger] self.suffixes()[b],
                            None,
                        ),
                decreases exts - j,
            {
                let file = String::from_str(command_name).concat(self.extensions[j].as_str());
                let file_name = file.as_str();
                let answer = probe(directory, file_name);
                proof {
                    assert(self.suffixes()[j as int] == self.extensions@[j as int]@);
                    assert(probe_answered(
                        *probe,
                        self.directories()[i as int],
                        command_name@ + self.suffixes()[j as int],
                        answer,
                    ));
                }
                match answer {
                    Some(found) => {
                        return Ok(found);
                    },
                    None => {},
                }
                j = j + 1;
            }
            i = i + 1;
        }
        Err(CommandError::not_found())
    }
}

/// The path `tail` joined to `base`, as `std::path::Path::join` makes it for
/// the target the crate is built for: it reads no disk, environment or clock.
pub uninterp spec fn joined_path(base: Seq<char>, tail: Seq<char>) -> Seq<char>;

/// Relies on `std::path::Path::join`: the current directory followed by the
/// given path, with the platform's separator between them; the result depends
/// on the two paths alone.
#[verifier::external_body]
fn join_path(base: &str, tail: &str) -> (r: String)
    ensures
        r@ == joined_path(base@, tail@),
{
    std::path::Path::new(base).join(tail).to_string_lossy().into_owned()
}

} // verus!

//! Names under which received files are saved.
//!
//! A name that comes from another computer is cut down to its last component, so that
//! it cannot lead out of the folder in which the file is saved.
//!
//! Systems read paths in two ways. To all of them a slash parts components. Windows also
//! takes a backslash for one, and a letter with a colon in front for a drive.

use crate::number::push_decimal;
use crate::text::{chars_of, cut, find_char, string_of};
use vstd::prelude::*;
use vstd::string::StringExecFns;

#[allow(unused_imports)]
use crate::number::{decimal, is_digit, law_decimal_injective, lemma_decimal};
#[allow(unused_imports)]
use crate::text::{
    first_of, law_split_at_separator, law_split_whole, lemma_first_of, occurs, occurs_at, split,
};

verus! {

/// The view of an optional string.
pub open spec fn viewed(s: Option<String>) -> Option<Seq<char>> {
    match s {
        Some(s) => Some(s@),
        None => None,
    }
}

/// Whether a path begins with a drive: a letter and a colon.
pub open spec fn has_drive(path: Seq<char>) -> bool {
    path.len() >= 2 && path[1] == ':' && ('a' <= path[0] <= 'z' || 'A' <= path[0] <= 'Z')
}

/// A path without the drive in front.
pub open spec fn without_drive(path: Seq<char>) -> Seq<char> {
    if has_drive(path) {
        path.skip(2)
    } else {
        path
    }
}

/// A path with slashes for its backslashes.
pub open spec fn slashed(path: Seq<char>) -> Seq<char> {
    path.map_values(
        |c: char|
            if c == '\\' {
                '/'
            } else {
                c
            },
    )
}

/// Whether a path begins with two separators. Behind them Windows expects the name of a
/// computer or of a device.
pub open spec fn begins_with_two(path: Seq<char>) -> bool {
    &&& path.len() >= 2
    &&& path[0] == '/' || path[0] == '\\'
    &&& path[1] == '/' || path[1] == '\\'
}

/// Which parts between slashes are components: all but the empty part and "." .
pub open spec fn is_component() -> spec_fn(Seq<char>) -> bool {
    |part: Seq<char>| part.len() > 0 && part != seq!['.']
}

/// The components of a path, by slashes alone.
pub open spec fn components(path: Seq<char>) -> Seq<Seq<char>> {
    split(path, '/').filter(is_component())
}

/// The last component of a path by slashes alone, unless it is "..".
pub open spec fn last_part(path: Seq<char>) -> Option<Seq<char>> {
    let parts = components(path);
    if parts.len() == 0 || parts.last() == seq!['.', '.'] {
        None
    } else {
        Some(parts.last())
    }
}

/// The last component of a path, unless it is ".."; read with backslashes and drives, or
/// without.
pub open spec fn last_component(path: Seq<char>, backslash: bool) -> Option<Seq<char>> {
    if backslash {
        last_part(slashed(without_drive(path)))
    } else {
        last_part(path)
    }
}

/// Whether a result is the last component of a path in the given way of reading. What
/// Windows makes of a path that begins with two separators is left open: it gives
/// nothing, or a part of the path.
pub open spec fn is_last_of(name: Option<Seq<char>>, path: Seq<char>, backslash: bool) -> bool {
    if backslash && begins_with_two(path) {
        name matches Some(n) ==> occurs(path, n)
    } else {
        name == last_component(path, backslash)
    }
}

/// Whether a path has a last component in both ways of reading.
pub open spec fn has_both(path: Seq<char>) -> bool {
    &&& last_component(path, false) is Some
    &&& !begins_with_two(path)
    &&& last_component(path, true) is Some
}

/// The position of the last dot in a name, or -1 where there is none.
pub open spec fn last_dot(name: Seq<char>) -> int
    decreases name.len(),
{
    if name.len() == 0 {
        -1
    } else if name.last() == '.' {
        name.len() - 1
    } else {
        last_dot(name.drop_last())
    }
}

/// What stands before the last dot of a name; the whole name where its only dot is in
/// front, or where it has none.
pub open spec fn stem_of(name: Seq<char>) -> Seq<char> {
    if last_dot(name) > 0 {
        name.take(last_dot(name))
    } else {
        name
    }
}

/// What stands behind the last dot of a name; nothing where its only dot is in front,
/// or where it has none.
pub open spec fn extension_of(name: Seq<char>) -> Seq<char> {
    if last_dot(name) > 0 {
        name.skip(last_dot(name) + 1)
    } else {
        seq![]
    }
}

/// Whether a name used in a folder stands for a file right in that folder.
pub open spec fn stays_inside(name: Seq<char>, backslash: bool) -> bool {
    &&& name.len() > 0
    &&& name != seq!['.']
    &&& name != seq!['.', '.']
    &&& !name.contains('/')
    &&& backslash ==> !name.contains('\\') && !has_drive(name)
}

/// A name without any drives in front.
pub open spec fn undriven(name: Seq<char>) -> Seq<char>
    decreases name.len(),
{
    if has_drive(name) {
        undriven(name.skip(2))
    } else {
        name
    }
}

/// A component as a name to save a file under. Where drives are read, a component can
/// itself begin with one, behind which it would lead to another place; the drive is
/// taken away. Nothing where no name is left.
pub open spec fn own_name(last: Seq<char>, backslash: bool) -> Option<Seq<char>> {
    let name = if backslash {
        undriven(last)
    } else {
        last
    };
    if stays_inside(name, backslash) {
        Some(name)
    } else {
        None
    }
}

/// The name under which a file is saved that another computer named `raw`: the last
/// component, as a name.
pub open spec fn saved_name(raw: Seq<char>, backslash: bool) -> Option<Seq<char>> {
    match last_component(raw, backslash) {
        Some(last) => own_name(last, backslash),
        None => None,
    }
}

/// Whether a file that another computer named `raw` can be refused for its name, in the
/// given way of reading: the name gives none to save it under, or begins with two
/// separators where Windows reads it.
pub open spec fn is_refused(raw: Seq<char>, backslash: bool) -> bool {
    (backslash && begins_with_two(raw)) || saved_name(raw, backslash) is None
}

/// Whether `raw` gives a name in both ways of reading: a file of that name is saved on
/// every system.
pub open spec fn is_usable(raw: Seq<char>) -> bool {
    &&& saved_name(raw, false) is Some
    &&& !begins_with_two(raw)
    &&& saved_name(raw, true) is Some
}

/// `Path::file_name` of the standard library, as text: the final component of a path,
/// nothing where the path has none or ends in "..". With it comes
/// `std::path::MAIN_SEPARATOR`, which tells how the system reads paths: it is a backslash
/// on Windows, which reads backslashes and drives, and a slash on Unix, which does not.
/// For every path the result is a part of it. What Windows makes of a path that begins
/// with two separators is left open.
#[verifier::external_body]
fn path_file_name(path: &str) -> (r: (Option<String>, char))
    ensures
        r.1 != '\\' ==> viewed(r.0) == last_component(path@, false),
        r.1 == '\\' && !begins_with_two(path@) ==> viewed(r.0) == last_component(path@, true),
        r.0 matches Some(name) ==> occurs(path@, name@),
{
    let name = std::path::Path::new(path).file_name();
    (name.and_then(|n| n.to_str()).map(String::from), std::path::MAIN_SEPARATOR)
}

/// The folder of the user's home in which received files are saved where the system
/// names no other.
pub const DOWNLOADS: &'static str = "Downloads";

/// The folder of the user's home in which the log is kept where the system names no
/// other.
pub const LOG_FOLDER: &'static str = ".deskbridge";

/// Which folder is used: the one that the system names, one in the user's home, or the
/// current one.
#[derive(Clone, Copy, Debug, PartialEq, Eq, Structural)]
pub enum FolderChoice {
    Named,
    InHome,
    Current,
}

/// Chooses a folder, from whether the system names one and whether the user has a home.
pub fn choose_folder(named: bool, has_home: bool) -> (choice: FolderChoice)
    ensures
        choice is Named <==> named,
        choice is InHome <==> !named && has_home,
        choice is Current <==> !named && !has_home,
{
    if named {
        FolderChoice::Named
    } else if has_home {
        FolderChoice::InHome
    } else {
        FolderChoice::Current
    }
}

/// The name of a received file, and the two parts between which a number is put where
/// the name is taken. `backslash` says whether the system reads backslashes and drives.
#[derive(Clone, Debug, PartialEq, Eq)]
pub struct SaveName {
    pub file_name: String,
    pub stem: String,
    pub extension: String,
    pub backslash: bool,
}

/// The name with the given number in it; the name itself for the number 0.
pub open spec fn numbered(name: SaveName, count: nat) -> Seq<char> {
    if count == 0 {
        name.file_name@
    } else if name.extension@.len() == 0 {
        name.stem@ + seq!['_'] + decimal(count)
    } else {
        name.stem@ + seq!['_'] + decimal(count) + seq!['.'] + name.extension@
    }
}

impl SaveName {
    /// Whether the name stands for a file in the folder in which it is used, and the two
    /// parts are those before and behind its last dot.
    pub open spec fn wf(&self) -> bool {
        &&& stays_inside(self.file_name@, self.backslash)
        &&& self.stem@ == stem_of(self.file_name@)
        &&& self.extension@ == extension_of(self.file_name@)
    }

    /// The name to try after `count` taken ones.
    pub fn candidate(&self, count: u32) -> (name: String)
        ensures
            name@ == numbered(*self, count as nat),
    {
        if count == 0 {
            return self.file_name.clone();
        }
        let mut name = self.stem.clone();
        name.push('_');
        push_decimal(&mut name, count as u128);
        if !self.extension.as_str().is_empty() {
            name.push('.');
            name.append(self.extension.as_str());
        }
        assert(name@ == numbered(*self, count as nat));
        name
    }
}

/// Whether a file that another computer named `raw` is saved under the given name. Of a
/// path that begins with two separators, Windows gives a part that stays inside.
pub open spec fn is_saved_as(name: SaveName, raw: Seq<char>) -> bool {
    &&& name.wf()
    &&& if name.backslash && begins_with_two(raw) {
        occurs(raw, name.file_name@)
    } else {
        saved_name(raw, name.backslash) == Some(name.file_name@)
    }
}

/// The search for a name that is not taken: the names to try, and how many of them were
/// taken.
#[derive(Clone, Debug, PartialEq, Eq)]
pub struct NameSearch {
    pub name: SaveName,
    pub count: u32,
}

impl NameSearch {
    /// A search in which no name was tried yet.
    pub fn new(name: SaveName) -> (search: NameSearch)
        ensures
            search.name == name,
            search.count == 0,
    {
        NameSearch { name, count: 0 }
    }

    /// The name to try next.
    pub fn candidate(&self) -> (name: String)
        ensures
            name@ == numbered(self.name, self.count as nat),
    {
        self.name.candidate(self.count)
    }

    /// Goes on, now that it is known whether that name is taken: it is the one to use,
    /// or the next one is to be tried.
    pub fn step(&mut self, taken: bool) -> (chosen: Option<String>)
        requires
            taken ==> old(self).count < u32::MAX,
        ensures
            !taken ==> *final(self) == *old(self) && viewed(chosen) == Some(
                numbered(old(self).name, old(self).count as nat),
            ),
            taken ==> chosen is None && *final(self) == (NameSearch {
                count: (old(self).count + 1) as u32,
                ..*old(self)
            }),
    {
        if taken {
            self.count += 1;
            None
        } else {
            Some(self.candidate())
        }
    }
}

/// The name that a search finds within `steps` steps, from a count on, in a folder where
/// the given names are taken.
pub open spec fn searched(name: SaveName, taken: Set<Seq<char>>, count: nat, steps: nat) -> Option<
    Seq<char>,
>
    decreases steps,
{
    if steps == 0 {
        None
    } else if taken.contains(numbered(name, count)) {
        searched(name, taken, count + 1, (steps - 1) as nat)
    } else {
        Some(numbered(name, count))
    }
}

fn is_letter(c: char) -> (r: bool)
    ensures
        r == ('a' <= c <= 'z' || 'A' <= c <= 'Z'),
{
    ('a' <= c && c <= 'z') || ('A' <= c && c <= 'Z')
}

fn drop_drives(name: &[char]) -> (kept: Vec<char>)
    ensures
        kept@ == undriven(name@),
{
    let mut from: usize = 0;
    assert(name@.skip(0) == name@);
    while name.len() - from >= 2 && name[from + 1] == ':' && is_letter(name[from])
        invariant
            from <= name.len(),
            name.len() == name@.len(),
            undriven(name@.skip(from as int)) == undriven(name@),
        decreases name.len() - from,
    {
        assert(name@.skip(from as int).skip(2) == name@.skip(from + 2));
        from += 2;
    }
    assert(!has_drive(name@.skip(from as int)));
    assert(name@.subrange(from as int, name@.len() as int) == name@.skip(from as int));
    cut(name, from, name.len())
}

fn holds(name: &[char], c: char) -> (r: bool)
    ensures
        r == name@.contains(c),
{
    let i = find_char(name, c);
    proof {
        lemma_first_of(name@, c);
        if i < name@.len() {
            assert(name@[i as int] == c);
        }
    }
    i < name.len()
}

fn is_inside(name: &[char], backslash: bool) -> (r: bool)
    ensures
        r == stays_inside(name@, backslash),
{
    if name.len() == 0 || holds(name, '/') {
        return false;
    }
    if name.len() == 1 && name[0] == '.' {
        assert(name@ == seq!['.']);
        return false;
    }
    if name.len() == 2 && name[0] == '.' && name[1] == '.' {
        assert(name@ == seq!['.', '.']);
        return false;
    }
    if backslash {
        if holds(name, '\\') {
            return false;
        }
        if name.len() >= 2 && name[1] == ':' && is_letter(name[0]) {
            return false;
        }
    }
    true
}

/// The stem and the extension of a name.
fn at_last_dot(name: &[char]) -> (parts: (String, String))
    ensures
        parts.0@ == stem_of(name@),
        parts.1@ == extension_of(name@),
{
    let mut i: usize = name.len();
    assert(name@.take(i as int) == name@);
    while i > 1
        invariant
            i <= name.len(),
            name.len() == name@.len(),
            last_dot(name@.take(i as int)) == last_dot(name@),
            i == 0 ==> name@.len() == 0,
        decreases i,
    {
        if name[i - 1] == '.' {
            let stem = cut(name, 0, i - 1);
            let extension = cut(name, i, name.len());
            assert(name@.take(i as int).last() == '.');
            assert(name@.subrange(0, i - 1) == name@.take(i - 1));
            assert(name@.subrange(i as int, name@.len() as int) == name@.skip(i as int));
            return (string_of(&stem), string_of(&extension));
        }
        assert(name@.take(i as int).drop_last() == name@.take(i - 1));
        i -= 1;
    }
    proof {
        lemma_last_dot(name@.take(i as int));
    }
    (string_of(name), String::new())
}

/// The last component of a path, and whether the system reads backslashes and drives.
pub fn file_name_of(path: &str) -> (r: (Option<String>, bool))
    ensures
        is_last_of(viewed(r.0), path@, r.1),
{
    let (name, separator) = path_file_name(path);
    (name, separator == '\\')
}

/// A component as a name to save a file under, with its parts; `backslash` says whether
/// the system reads backslashes and drives.
pub fn name_from(last: &str, backslash: bool) -> (name: Option<SaveName>)
    ensures
        name is Some <==> own_name(last@, backslash) is Some,
        name matches Some(n) ==> {
            &&& n.wf()
            &&& n.backslash == backslash
            &&& own_name(last@, backslash) == Some(n.file_name@)
        },
{
    let all = chars_of(last);
    let kept = if backslash {
        drop_drives(&all)
    } else {
        all
    };
    if !is_inside(&kept, backslash) {
        return None;
    }
    let (stem, extension) = at_last_dot(&kept);
    Some(SaveName { file_name: string_of(&kept), stem, extension, backslash })
}

/// The name under which to save a file that another computer named `raw`, or nothing;
/// and whether the system reads backslashes and drives.
pub fn save_name(raw: &str) -> (r: (Option<SaveName>, bool))
    ensures
        r.0 matches Some(name) ==> is_saved_as(name, raw@) && name.backslash == r.1,
        r.0 is None ==> is_refused(raw@, r.1),
{
    let (last, backslash) = file_name_of(raw);
    match last {
        Some(last) => {
            proof {
                if occurs(raw@, last@) {
                    lemma_own_name_occurs(raw@, last@, backslash);
                }
            }
            (name_from(last.as_str(), backslash), backslash)
        },
        None => (None, backslash),
    }
}

/// The name that a component gives is a part of what the component is a part of.
proof fn lemma_own_name_occurs(raw: Seq<char>, last: Seq<char>, backslash: bool)
    requires
        occurs(raw, last),
    ensures
        own_name(last, backslash) matches Some(name) ==> occurs(raw, name),
{
    if backslash {
        lemma_undriven(last);
        lemma_part_of_part(raw, last, undriven(last));
    }
}

/// What is left of a name without drives stands at its end.
proof fn lemma_undriven(name: Seq<char>)
    ensures
        occurs(name, undriven(name)),
        !has_drive(undriven(name)),
    decreases name.len(),
{
    if has_drive(name) {
        let rest = name.skip(2);
        lemma_undriven(rest);
        assert(occurs_at(name, rest, 2));
        lemma_part_of_part(name, rest, undriven(name));
    } else {
        assert(name.subrange(0, name.len() as int) == name);
        assert(occurs_at(name, name, 0));
    }
}

/// A part of a part is a part.
proof fn lemma_part_of_part(whole: Seq<char>, part: Seq<char>, inner: Seq<char>)
    requires
        occurs(whole, part),
        occurs(part, inner),
    ensures
        occurs(whole, inner),
{
    let i = choose|i: int| occurs_at(whole, part, i);
    let j = choose|j: int| occurs_at(part, inner, j);
    assert(whole.subrange(i + j, i + j + inner.len()) == inner) by {
        assert forall|k: int| 0 <= k < inner.len() implies whole[i + j + k] == inner[k] by {
            assert(part[j + k] == inner[k]);
            assert(whole[i + (j + k)] == part[j + k]);
        }
    }
    assert(occurs_at(whole, inner, i + j));
}

/// Where the parts of a name are.
proof fn lemma_last_dot(name: Seq<char>)
    ensures
        -1 <= last_dot(name) < name.len(),
        last_dot(name) >= 0 ==> name[last_dot(name)] == '.',
    decreases name.len(),
{
    if name.len() > 0 && name.last() != '.' {
        lemma_last_dot(name.drop_last());
    }
}

/// A name without a slash is its own and only component.
proof fn lemma_single_part(name: Seq<char>)
    requires
        stays_inside(name, false),
    ensures
        last_part(name) == Some(name),
{
    let keep = is_component();
    lemma_first_of(name, '/');
    assert(first_of(name, '/') == name.len()) by {
        if first_of(name, '/') < name.len() {
            assert(name[first_of(name, '/') as int] == '/');
        }
    }
    assert(split(name, '/') == seq![name]);
    reveal_with_fuel(Seq::filter, 3);
    assert(seq![name].drop_last() == Seq::<Seq<char>>::empty());
    assert(seq![name].filter(keep) == seq![name]);
}

/// The parts of a path hold no separator and nothing that the path does not hold.
proof fn lemma_split_parts(s: Seq<char>, separator: char)
    ensures
        forall|k: int, c: char|
            0 <= k < split(s, separator).len() && #[trigger] split(s, separator)[k].contains(c)
                ==> c != separator && s.contains(c),
    decreases s.len(),
{
    let i = first_of(s, separator) as int;
    lemma_first_of(s, separator);
    if i < s.len() {
        lemma_split_parts(s.skip(i + 1), separator);
        let tail = split(s.skip(i + 1), separator);
        assert forall|k: int, c: char|
            0 <= k < split(s, separator).len() && #[trigger] split(s, separator)[k].contains(
                c,
            ) implies c != separator && s.contains(c) by {
            if k == 0 {
                let part = s.take(i);
                let j = choose|j: int| 0 <= j < part.len() && part[j] == c;
                assert(s[j] == c);
            } else {
                assert(split(s, separator)[k] == tail[k - 1]);
                let rest = s.skip(i + 1);
                assert(rest.contains(c));
                let j = choose|j: int| 0 <= j < rest.len() && rest[j] == c;
                assert(s[i + 1 + j] == c);
            }
        }
    } else {
        assert(split(s, separator) == seq![s]);
        assert forall|k: int, c: char|
            0 <= k < split(s, separator).len() && #[trigger] split(s, separator)[k].contains(
                c,
            ) implies c != separator && s.contains(c) by {
            let j = choose|j: int| 0 <= j < s.len() && s[j] == c;
            assert(s[j] == c);
        }
    }
}

/// The last component by slashes is a name, and holds nothing that the path does not
/// hold.
proof fn lemma_last_part(path: Seq<char>, c: char)
    requires
        last_part(path) is Some,
    ensures
        stays_inside(last_part(path)->0, false),
        last_part(path)->0.contains(c) ==> path.contains(c),
{
    let keep = is_component();
    let all = split(path, '/');
    let name = last_part(path)->0;
    let last = all.filter(keep).len() - 1;
    assert(all.filter(keep)[last] == name);
    all.lemma_filter_contains_rev(keep, name);
    all.lemma_filter_pred(keep, last);
    let k = choose|k: int| 0 <= k < all.len() && all[k] == name;
    lemma_split_parts(path, '/');
    if name.contains('/') {
        assert(all[k].contains('/'));
    }
    if name.contains(c) {
        assert(all[k].contains(c));
    }
}

/// The last component of a path holds no separator, and is neither empty nor "." nor
/// "..". So without a drive in front it stands for a file in the folder in which it is
/// used.
pub proof fn law_last_component(path: Seq<char>, backslash: bool)
    requires
        last_component(path, backslash) is Some,
    ensures
        ({
            let name = last_component(path, backslash)->0;
            &&& stays_inside(name, false)
            &&& backslash ==> !name.contains('\\')
            &&& stays_inside(name, backslash) <==> !(backslash && has_drive(name))
        }),
{
    if backslash {
        let read = slashed(without_drive(path));
        lemma_last_part(read, '\\');
        assert(!read.contains('\\'));
    } else {
        lemma_last_part(path, '/');
    }
}

/// A name that stands for a file in a folder is its own last component, and is saved as
/// it is.
pub proof fn law_own_name(name: Seq<char>, backslash: bool)
    requires
        stays_inside(name, backslash),
    ensures
        last_component(name, backslash) == Some(name),
        saved_name(name, backslash) == Some(name),
{
    if backslash {
        assert(slashed(without_drive(name)) == name) by {
            assert forall|i: int| 0 <= i < name.len() implies slashed(name)[i] == name[i] by {
                assert(name.contains(name[i]));
            }
        }
    }
    lemma_single_part(name);
}

/// Both ways of reading agree on a path without backslashes and without a drive.
pub proof fn law_readings_agree(path: Seq<char>)
    requires
        !path.contains('\\'),
        !has_drive(path),
    ensures
        last_component(path, true) == last_component(path, false),
{
    assert(slashed(path) == path) by {
        assert forall|i: int| 0 <= i < path.len() implies slashed(path)[i] == path[i] by {
            assert(path.contains(path[i]));
        }
    }
}

/// Both ways of reading agree on a path with slashes behind a drive, where it has a
/// component there.
pub proof fn law_drive_in_front(drive: char, path: Seq<char>)
    requires
        'a' <= drive <= 'z' || 'A' <= drive <= 'Z',
        !path.contains('\\'),
        last_part(path) is Some,
    ensures
        ({
            let full = seq![drive, ':', '/'] + path;
            &&& last_component(full, false) == last_part(path)
            &&& last_component(full, true) == last_part(path)
            &&& !begins_with_two(full)
        }),
{
    let keep = is_component();
    let full = seq![drive, ':', '/'] + path;
    let rooted = seq!['/'] + path;
    lemma_first_of(full, '/');
    assert(full[2] == '/');
    assert(first_of(full, '/') == 2);
    assert(full.skip(3) == path);
    assert(split(full, '/') == seq![full.take(2)] + split(path, '/'));
    Seq::filter_distributes_over_add(seq![full.take(2)], split(path, '/'), keep);
    assert(components(full).last() == components(path).last());
    assert(full.skip(2) == rooted);
    assert(slashed(rooted) == rooted) by {
        assert forall|i: int| 0 <= i < rooted.len() implies slashed(rooted)[i] == rooted[i] by {
            if i > 0 {
                assert(path.contains(path[i - 1]));
                assert(rooted[i] == path[i - 1]);
            }
        }
    }
    assert(rooted[0] == '/');
    assert(first_of(rooted, '/') == 0);
    assert(rooted.skip(1) == path);
    assert(split(rooted, '/') == seq![rooted.take(0)] + split(path, '/'));
    Seq::filter_distributes_over_add(seq![rooted.take(0)], split(path, '/'), keep);
    assert(components(rooted).last() == components(path).last());
}

/// What a name is made up of: stem, dot and extension, or the stem alone.
proof fn lemma_name_parts(name: SaveName)
    requires
        name.wf(),
    ensures
        ({
            ||| name.file_name@ == name.stem@ + seq!['.'] + name.extension@
            ||| name.extension@.len() == 0 && name.file_name@ == name.stem@
        }),
{
    let whole = name.file_name@;
    lemma_last_dot(whole);
    if last_dot(whole) > 0 {
        assert(whole == name.stem@ + seq!['.'] + name.extension@);
    }
}

/// The parts of a name hold nothing that the name does not hold.
proof fn lemma_parts_hold(name: SaveName, c: char)
    requires
        name.wf(),
        !name.file_name@.contains(c),
    ensures
        !name.stem@.contains(c),
        !name.extension@.contains(c),
{
    lemma_name_parts(name);
    let whole = name.file_name@;
    if name.stem@.contains(c) {
        let j = choose|j: int| 0 <= j < name.stem@.len() && name.stem@[j] == c;
        assert(whole[j] == c);
    }
    if name.extension@.contains(c) {
        let j = choose|j: int| 0 <= j < name.extension@.len() && name.extension@[j] == c;
        assert(whole[name.stem@.len() + 1 + j] == c);
    }
}

/// A numbered name holds nothing but the name, digits, an underscore and a dot.
proof fn lemma_numbered_holds(name: SaveName, count: nat, c: char)
    requires
        name.wf(),
        count > 0,
        !name.file_name@.contains(c),
        !is_digit(c),
        c != '_',
        c != '.',
    ensures
        !numbered(name, count).contains(c),
{
    lemma_decimal(count);
    lemma_parts_hold(name, c);
    let full = numbered(name, count);
    let at = name.stem@.len() as int;
    let digits = decimal(count);
    if full.contains(c) {
        let j = choose|j: int| 0 <= j < full.len() && full[j] == c;
        if j < at {
            assert(name.stem@[j] == c);
        } else if at < j <= at + digits.len() {
            assert(full[j] == digits[j - at - 1]);
            assert(is_digit(digits[j - at - 1]));
        } else if j > at + digits.len() + 1 {
            assert(name.extension@[j - at - digits.len() - 2] == c);
        }
    }
}

/// Every name that is tried stands for a file in the folder in which it is used, on the
/// systems that read backslashes and drives as on the others.
pub proof fn law_candidates_stay_inside(name: SaveName, count: nat)
    requires
        name.wf(),
    ensures
        stays_inside(numbered(name, count), name.backslash),
{
    if count > 0 {
        lemma_decimal(count);
        lemma_name_parts(name);
        lemma_numbered_holds(name, count, '/');
        let full = numbered(name, count);
        let at = name.stem@.len() as int;
        assert(full[at] == '_');
        assert(full.len() > at + 1);
        if full == seq!['.', '.'] {
            assert(full[at] == '.');
        }
        if name.backslash {
            lemma_numbered_holds(name, count, '\\');
            if has_drive(full) && at >= 2 {
                assert(full[0] == name.file_name@[0]);
                assert(full[1] == name.file_name@[1]);
            }
        }
    }
}

/// No name is tried twice: different numbers give different names.
pub proof fn law_candidates_distinct(name: SaveName, a: nat, b: nat)
    requires
        name.wf(),
        a != b,
    ensures
        numbered(name, a) != numbered(name, b),
{
    lemma_decimal(a);
    lemma_decimal(b);
    lemma_name_parts(name);
    if numbered(name, a) == numbered(name, b) {
        if a == 0 || b == 0 {
            // The number adds at least two characters.
            assert(numbered(name, a).len() != numbered(name, b).len());
        } else {
            let at = name.stem@.len() as int;
            let full = numbered(name, a);
            assert(full.len() == numbered(name, b).len());
            assert(decimal(a).len() == decimal(b).len());
            assert(full.subrange(at + 1, at + 1 + decimal(a).len()) == decimal(a));
            assert(full.subrange(at + 1, at + 1 + decimal(b).len()) == decimal(b));
            law_decimal_injective(a, b);
        }
    }
}

/// The name that a search takes is the first that is not taken.
pub proof fn law_search_takes_first_free(
    name: SaveName,
    taken: Set<Seq<char>>,
    count: nat,
    steps: nat,
)
    ensures
        match searched(name, taken, count, steps) {
            Some(chosen) => exists|k: nat|
                count <= k < count + steps && chosen == #[trigger] numbered(name, k)
                    && !taken.contains(chosen) && forall|j: nat|
                    count <= j < k ==> taken.contains(#[trigger] numbered(name, j)),
            None => forall|j: nat|
                count <= j < count + steps ==> taken.contains(#[trigger] numbered(name, j)),
        },
    decreases steps,
{
    if steps > 0 {
        if taken.contains(numbered(name, count)) {
            law_search_takes_first_free(name, taken, count + 1, (steps - 1) as nat);
            if let Some(chosen) = searched(name, taken, count, steps) {
                let k = choose|k: nat|
                    count + 1 <= k < count + steps && chosen == #[trigger] numbered(name, k)
                        && !taken.contains(chosen) && forall|j: nat|
                        count + 1 <= j < k ==> taken.contains(#[trigger] numbered(name, j));
                assert forall|j: nat| count <= j < k implies taken.contains(
                    #[trigger] numbered(name, j),
                ) by {
                    if j > count {
                        assert(count + 1 <= j);
                    }
                }
                assert(chosen == numbered(name, k));
            } else {
                assert forall|j: nat| count <= j < count + steps implies taken.contains(
                    #[trigger] numbered(name, j),
                ) by {
                    if j > count {
                        assert(count + 1 <= j);
                    }
                }
            }
        } else {
            assert(numbered(name, count) == searched(name, taken, count, steps)->0);
        }
    }
}

/// So many different names cannot all be taken.
proof fn lemma_names_taken(name: SaveName, taken: Set<Seq<char>>, n: nat)
    requires
        name.wf(),
        taken.finite(),
        forall|j: nat| j < n ==> taken.contains(#[trigger] numbered(name, j)),
    ensures
        n <= taken.len(),
    decreases n,
{
    if n > 0 {
        let last = numbered(name, (n - 1) as nat);
        let others = taken.remove(last);
        assert forall|j: nat| j < n - 1 implies others.contains(#[trigger] numbered(name, j)) by {
            law_candidates_distinct(name, j, (n - 1) as nat);
        }
        assert(taken.contains(last));
        lemma_names_taken(name, others, (n - 1) as nat);
    }
}

/// A search comes to an end: after as many steps as names are taken, and one more.
pub proof fn law_search_ends(name: SaveName, taken: Set<Seq<char>>)
    requires
        name.wf(),
        taken.finite(),
    ensures
        searched(name, taken, 0, taken.len() + 1) is Some,
{
    law_search_takes_first_free(name, taken, 0, taken.len() + 1);
    if searched(name, taken, 0, taken.len() + 1) is None {
        lemma_names_taken(name, taken, taken.len() + 1);
    }
}

/// Nothing but the last dot has the properties of the last dot.
proof fn lemma_last_dot_unique(name: Seq<char>, i: int)
    requires
        -1 <= i < name.len(),
        i >= 0 ==> name[i] == '.',
        forall|j: int| i < j < name.len() ==> name[j] != '.',
    ensures
        last_dot(name) == i,
    decreases name.len(),
{
    if name.len() > 0 && i < name.len() - 1 {
        assert(name.last() != '.');
        lemma_last_dot_unique(name.drop_last(), i);
    }
}

/// A name of a stem, a dot and an extension without a dot is taken apart into just these,
/// however long they are.
pub proof fn law_stem_and_extension(stem: Seq<char>, extension: Seq<char>)
    requires
        stem.len() > 0,
        !extension.contains('.'),
    ensures
        stem_of(stem + seq!['.'] + extension) == stem,
        extension_of(stem + seq!['.'] + extension) == extension,
{
    let name = stem + seq!['.'] + extension;
    let n = stem.len() as int;
    assert forall|j: int| n < j < name.len() implies name[j] != '.' by {
        assert(name[j] == extension[j - n - 1]);
        assert(extension.contains(extension[j - n - 1]));
    }
    lemma_last_dot_unique(name, n);
    assert(name.take(n) == stem);
    assert(name.skip(n + 1) == extension);
}

/// A name without a dot, or with its only dot in front, is all stem.
pub proof fn law_name_without_extension(name: Seq<char>)
    requires
        !name.contains('.'),
    ensures
        stem_of(name) == name,
        extension_of(name) == Seq::<char>::empty(),
        stem_of(seq!['.'] + name) == seq!['.'] + name,
        extension_of(seq!['.'] + name) == Seq::<char>::empty(),
{
    assert forall|j: int| 0 <= j < name.len() implies name[j] != '.' by {
        assert(name.contains(name[j]));
    }
    lemma_last_dot_unique(name, -1);
    let hidden = seq!['.'] + name;
    assert forall|j: int| 0 < j < hidden.len() implies hidden[j] != '.' by {
        assert(hidden[j] == name[j - 1]);
    }
    lemma_last_dot_unique(hidden, 0);
}

/// Where a name is taken, the number goes between the stem and the extension, behind an
/// underscore: every name that is tried ends in the extension of the name.
pub proof fn law_number_before_extension(
    name: SaveName,
    stem: Seq<char>,
    extension: Seq<char>,
    count: nat,
)
    requires
        name.wf(),
        name.file_name@ == stem + seq!['.'] + extension,
        stem.len() > 0,
        extension.len() > 0,
        !extension.contains('.'),
    ensures
        name.stem@ == stem,
        name.extension@ == extension,
        count == 0 ==> numbered(name, count) == stem + seq!['.'] + extension,
        count > 0 ==> numbered(name, count) == stem + seq!['_'] + decimal(count) + seq!['.']
            + extension,
{
    law_stem_and_extension(stem, extension);
}

/// A name without an extension gets the number at its end. One that ends with a dot loses
/// it.
pub proof fn law_number_at_the_end(name: SaveName, stem: Seq<char>, count: nat)
    requires
        name.wf(),
        count > 0,
        stem.len() > 0,
        (name.file_name@ == stem && !stem.contains('.')) || (name.file_name@ == stem && stem[0]
            == '.' && !stem.skip(1).contains('.')) || name.file_name@ == stem + seq!['.'],
    ensures
        numbered(name, count) == stem + seq!['_'] + decimal(count),
        numbered(name, 0) == name.file_name@,
{
    if name.file_name@ == stem && !stem.contains('.') {
        law_name_without_extension(stem);
    } else if name.file_name@ == stem && stem[0] == '.' && !stem.skip(1).contains('.') {
        law_name_without_extension(stem.skip(1));
        assert(seq!['.'] + stem.skip(1) == stem);
    } else {
        law_stem_and_extension(stem, Seq::empty());
        assert(stem + seq!['.'] + Seq::<char>::empty() == stem + seq!['.']);
    }
}

/// A name stands for a file in its folder just where it is not empty, is neither "." nor
/// "..", and holds no slash; where backslashes and drives are read, neither a backslash
/// nor a letter and a colon in front.
pub proof fn law_what_stays_inside(name: Seq<char>, backslash: bool)
    ensures
        stays_inside(name, backslash) <==> {
            &&& name.len() > 0
            &&& !(name.len() == 1 && name[0] == '.')
            &&& !(name.len() == 2 && name[0] == '.' && name[1] == '.')
            &&& forall|i: int| 0 <= i < name.len() ==> #[trigger] name[i] != '/'
            &&& backslash ==> forall|i: int| 0 <= i < name.len() ==> #[trigger] name[i] != '\\'
            &&& backslash && name.len() >= 2 && name[1] == ':' ==> !('a' <= name[0] <= 'z' || 'A'
                <= name[0] <= 'Z')
        },
{
    assert(name.len() == 1 && name[0] == '.' ==> name == seq!['.']);
    assert(name.len() == 2 && name[0] == '.' && name[1] == '.' ==> name == seq!['.', '.']);
    if stays_inside(name, backslash) {
        assert forall|i: int| 0 <= i < name.len() implies #[trigger] name[i] != '/' by {
            assert(name.contains(name[i]));
        }
        if backslash {
            assert forall|i: int| 0 <= i < name.len() implies #[trigger] name[i] != '\\' by {
                assert(name.contains(name[i]));
            }
        }
    }
}

/// A drive in front of a name is taken away, and another behind it too; a name without
/// one stays as it is.
pub proof fn law_drives_are_taken_away(drive: char, name: Seq<char>)
    ensures
        'a' <= drive <= 'z' || 'A' <= drive <= 'Z' ==> undriven(seq![drive, ':'] + name)
            == undriven(name),
        name.len() < 2 || name[1] != ':' ==> undriven(name) == name,
        name.len() > 0 && !('a' <= name[0] <= 'z' || 'A' <= name[0] <= 'Z') ==> undriven(name)
            == name,
{
    assert((seq![drive, ':'] + name).skip(2) == name);
}

/// What stands behind the last slash of a path is its last component by slashes; a slash
/// or "/." behind it changes nothing, and behind "/.." there is none.
pub proof fn law_behind_the_last_slash(folder: Seq<char>, name: Seq<char>)
    requires
        stays_inside(name, false),
    ensures
        last_part(folder + seq!['/'] + name) == Some(name),
        last_part(folder + seq!['/']) == last_part(folder),
        last_part(folder + seq!['/', '.']) == last_part(folder),
        last_part(folder + seq!['/', '.', '.']) is None,
{
    let keep = is_component();
    let none = Seq::<char>::empty();
    let dot = seq!['.'];
    let up = seq!['.', '.'];
    law_split_at_separator(folder, '/', name);
    law_split_at_separator(folder, '/', none);
    law_split_at_separator(folder, '/', dot);
    law_split_at_separator(folder, '/', up);
    law_split_whole(name, '/');
    law_split_whole(none, '/');
    law_split_whole(dot, '/');
    law_split_whole(up, '/');
    Seq::filter_distributes_over_add(split(folder, '/'), seq![name], keep);
    Seq::filter_distributes_over_add(split(folder, '/'), seq![none], keep);
    Seq::filter_distributes_over_add(split(folder, '/'), seq![dot], keep);
    Seq::filter_distributes_over_add(split(folder, '/'), seq![up], keep);
    lemma_filter_one(name);
    lemma_filter_one(none);
    lemma_filter_one(dot);
    lemma_filter_one(up);
    assert(up != dot) by {
        assert(up.len() != dot.len());
    }
    assert(folder + seq!['/'] + none == folder + seq!['/']);
    assert(folder + seq!['/'] + dot == folder + seq!['/', '.']);
    assert(folder + seq!['/'] + up == folder + seq!['/', '.', '.']);
    assert(components(folder + seq!['/']) == components(folder));
    assert(components(folder + seq!['/', '.']) == components(folder));
    assert(components(folder + seq!['/', '.', '.']).last() == up);
    assert(components(folder + seq!['/'] + name).last() == name);
}

/// A single part is kept just where it is a component.
proof fn lemma_filter_one(part: Seq<char>)
    ensures
        part.len() > 0 && part != seq!['.'] ==> seq![part].filter(is_component()) == seq![part],
        part.len() == 0 || part == seq!['.'] ==> seq![part].filter(is_component()).len() == 0,
{
    reveal_with_fuel(Seq::filter, 3);
    assert(seq![part].drop_last() == Seq::<Seq<char>>::empty());
    assert(seq![part].last() == part);
}

/// A file in a folder has its own name as the last component of its path: behind a slash
/// on every system, behind a backslash where these are read.
pub proof fn law_file_in_folder(folder: Seq<char>, name: Seq<char>, backslash: bool)
    requires
        stays_inside(name, backslash),
    ensures
        last_component(folder + seq!['/'] + name, backslash) == Some(name),
        backslash ==> last_component(folder + seq!['\\'] + name, backslash) == Some(name),
        saved_name(folder + seq!['/'] + name, backslash) == Some(name),
        backslash ==> saved_name(folder + seq!['\\'] + name, backslash) == Some(name),
{
    if backslash {
        let read = slashed(without_drive(folder));
        let a = folder + seq!['/'] + name;
        let b = folder + seq!['\\'] + name;
        assert(has_drive(a) == has_drive(folder) && has_drive(b) == has_drive(folder));
        assert forall|i: int| 0 <= i < name.len() implies name[i] != '\\' by {
            assert(name.contains(name[i]));
        }
        assert(slashed(without_drive(a)) == read + seq!['/'] + name);
        assert(slashed(without_drive(b)) == read + seq!['/'] + name);
        law_behind_the_last_slash(read, name);
    } else {
        law_behind_the_last_slash(folder, name);
    }
    law_own_name(name, backslash);
}

/// A file that another computer names with an ordinary name, in whatever folder, is not
/// refused, and is saved under that name.
pub proof fn law_ordinary_name_is_kept(
    folder: Seq<char>,
    name: Seq<char>,
    saved: SaveName,
    backslash: bool,
)
    requires
        stays_inside(name, backslash),
        !(backslash && begins_with_two(folder + seq!['/'] + name)),
    ensures
        !is_refused(folder + seq!['/'] + name, backslash),
        is_saved_as(saved, folder + seq!['/'] + name) && saved.backslash == backslash
            ==> saved.file_name@ == name,
        forall|result: Option<Seq<char>>|
            #![trigger is_last_of(result, folder + seq!['/'] + name, backslash)]
            is_last_of(result, folder + seq!['/'] + name, backslash) ==> result == Some(name),
{
    law_file_in_folder(folder, name, backslash);
}

/// Where only slashes are read, the last component of a name is always kept as it is, and
/// a name is refused just where it has none.
pub proof fn law_slashes_alone(raw: Seq<char>, saved: SaveName)
    ensures
        saved_name(raw, false) == last_component(raw, false),
        is_refused(raw, false) <==> last_component(raw, false) is None,
        is_saved_as(saved, raw) && !saved.backslash ==> last_component(raw, false) == Some(
            saved.file_name@,
        ),
        last_component(raw, false) == last_part(raw),
{
    if last_component(raw, false) is Some {
        law_last_component(raw, false);
    }
}

/// What is saved always stands for a file in its folder, and has the parts of its name.
pub proof fn law_saved_names_are_names(saved: SaveName, raw: Seq<char>)
    requires
        is_saved_as(saved, raw),
    ensures
        stays_inside(saved.file_name@, saved.backslash),
        saved.stem@ == stem_of(saved.file_name@),
        saved.extension@ == extension_of(saved.file_name@),
{
}

/// An optional string is seen as what it holds.
pub proof fn law_viewed(s: Option<String>)
    ensures
        s is None <==> viewed(s) is None,
        s matches Some(t) ==> viewed(s) == Some(t@),
{
}

/// Two separators in front: each a slash or a backslash.
pub proof fn law_two_in_front(a: char, b: char, rest: Seq<char>)
    ensures
        begins_with_two(seq![a, b] + rest) <==> (a == '/' || a == '\\') && (b == '/' || b
            == '\\'),
{
}

} // verus!

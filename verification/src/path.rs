//! Paths as text.
//!
//! A path is a string whose parts are separated by `/`. Empty parts and `.`
//! parts say nothing and are passed over; what remains are the path's
//! components, among them `..`, which steps up. A path is absolute when it
//! starts with the separator.
use vstd::prelude::*;

verus! {

/// The part that stands for the directory itself.
pub open spec fn dot() -> Seq<char> {
    seq!['.']
}

/// The part that steps up to the parent directory.
pub open spec fn dotdot() -> Seq<char> {
    seq!['.', '.']
}

/// The parts of `s` between its separators, empty ones included: one more
/// than `s` has separators.
pub open spec fn segments(s: Seq<char>) -> Seq<Seq<char>>
    decreases s.len(),
{
    if s.len() == 0 {
        seq![Seq::<char>::empty()]
    } else if s.last() == '/' {
        segments(s.drop_last()).push(Seq::<char>::empty())
    } else {
        let before = segments(s.drop_last());
        before.drop_last().push(before.last().push(s.last()))
    }
}

/// Whether a part of a path counts as a component: it is neither empty nor `.`.
pub open spec fn counts(part: Seq<char>) -> bool {
    part.len() > 0 && part != dot()
}

/// Those of `parts` that count, in order.
pub open spec fn counted(parts: Seq<Seq<char>>) -> Seq<Seq<char>>
    decreases parts.len(),
{
    if parts.len() == 0 {
        Seq::<Seq<char>>::empty()
    } else if counts(parts.last()) {
        counted(parts.drop_last()).push(parts.last())
    } else {
        counted(parts.drop_last())
    }
}

/// The components of the path `s`.
pub open spec fn spec_components(s: Seq<char>) -> Seq<Seq<char>> {
    counted(segments(s))
}

/// Whether `part` names an entry of a directory: it is not empty, holds no
/// separator and is neither `.` nor `..`.
pub open spec fn spec_is_file_name(part: Seq<char>) -> bool {
    &&& part.len() > 0
    &&& !part.contains('/')
    &&& part != dot()
    &&& part != dotdot()
}

/// Whether the path `s` starts at the root.
pub open spec fn spec_is_absolute(s: Seq<char>) -> bool {
    s.len() > 0 && s[0] == '/'
}

/// `parts` with a separator between each two.
pub open spec fn spec_joined(parts: Seq<Seq<char>>) -> Seq<char>
    decreases parts.len(),
{
    if parts.len() == 0 {
        Seq::<char>::empty()
    } else if parts.len() == 1 {
        parts[0]
    } else {
        spec_joined(parts.drop_last()) + seq!['/'] + parts.last()
    }
}

/// The last component of the path `s`, unless there is none or it is `..`.
pub open spec fn spec_file_name(s: Seq<char>) -> Option<Seq<char>> {
    let parts = spec_components(s);
    if parts.len() > 0 && parts.last() != dotdot() {
        Some(parts.last())
    } else {
        None
    }
}

/// The path `rest` taken from the directory `base`: `rest` itself where it
/// is absolute, else `base` and `rest` with exactly one separator between
/// them, none where `base` is empty.
pub open spec fn spec_join(base: Seq<char>, rest: Seq<char>) -> Seq<char> {
    if spec_is_absolute(rest) {
        rest
    } else if base.len() > 0 && base.last() != '/' {
        base + seq!['/'] + rest
    } else {
        base + rest
    }
}

/// What is left of the path `s` below the directory `base`: the components
/// of `s` after those of `base`, joined. There is nothing left where only
/// one of the two is absolute or where `s` does not begin with the
/// components of `base`.
pub open spec fn spec_strip_prefix(s: Seq<char>, base: Seq<char>) -> Option<Seq<char>> {
    let parts = spec_components(s);
    let above = spec_components(base);
    if spec_is_absolute(s) == spec_is_absolute(base) && above.len() <= parts.len() && parts.take(
        above.len() as int,
    ) == above {
        Some(spec_joined(parts.skip(above.len() as int)))
    } else {
        None
    }
}

/// The directory that holds the last component of the path `s`: the
/// components before the last, joined, behind the root where `s` is
/// absolute. A path without components has none.
pub open spec fn spec_parent(s: Seq<char>) -> Option<Seq<char>> {
    let parts = spec_components(s);
    if parts.len() == 0 {
        None
    } else if spec_is_absolute(s) {
        Some(seq!['/'] + spec_joined(parts.drop_last()))
    } else {
        Some(spec_joined(parts.drop_last()))
    }
}

/// Whether the path `s` lies within the directory it is taken from: it is
/// relative, and none of its components steps up.
pub open spec fn spec_is_contained(s: Seq<char>) -> bool {
    &&& !spec_is_absolute(s)
    &&& forall|i: int|
        0 <= i < spec_components(s).len() ==> spec_is_file_name(#[trigger] spec_components(s)[i])
}

/// What is left of `parts` once every `..` has taken back the component
/// before it; nothing where a `..` finds no component to take back.
pub open spec fn resolved(parts: Seq<Seq<char>>) -> Option<Seq<Seq<char>>>
    decreases parts.len(),
{
    if parts.len() == 0 {
        Some(Seq::<Seq<char>>::empty())
    } else {
        match resolved(parts.drop_last()) {
            None => None,
            Some(kept) => if parts.last() != dotdot() {
                Some(kept.push(parts.last()))
            } else if kept.len() > 0 {
                Some(kept.drop_last())
            } else {
                None
            },
        }
    }
}

/// How far below its start the walk along `parts` ends: one down for each
/// component, one up for each `..`.
pub open spec fn depth(parts: Seq<Seq<char>>) -> int
    decreases parts.len(),
{
    if parts.len() == 0 {
        0
    } else if parts.last() == dotdot() {
        depth(parts.drop_last()) - 1
    } else {
        depth(parts.drop_last()) + 1
    }
}

/// No segment holds a separator.
pub proof fn lemma_segments_hold_no_separator(s: Seq<char>)
    ensures
        segments(s).len() > 0,
        forall|i: int| 0 <= i < segments(s).len() ==> !(#[trigger] segments(s)[i]).contains('/'),
    decreases s.len(),
{
    if s.len() == 0 {
    } else {
        lemma_segments_hold_no_separator(s.drop_last());
        let before = segments(s.drop_last());
        if s.last() == '/' {
        } else {
            let grown = before.last().push(s.last());
            assert forall|j: int| 0 <= j < grown.len() implies grown[j] != '/' by {
                if j < before.last().len() {
                    assert(before.last().contains(before.last()[j]));
                }
            }
        }
    }
}

/// Joining the segments of a path gives the path back.
pub proof fn lemma_segments_join_back(s: Seq<char>)
    ensures
        spec_joined(segments(s)) == s,
    decreases s.len(),
{
    lemma_segments_hold_no_separator(s);
    if s.len() == 0 {
    } else {
        let init = s.drop_last();
        lemma_segments_join_back(init);
        lemma_segments_hold_no_separator(init);
        let before = segments(init);
        if s.last() == '/' {
            assert(segments(s).drop_last() =~= before);
            assert(s =~= init + seq!['/'] + Seq::<char>::empty());
        } else {
            let grown = before.last().push(s.last());
            if before.len() == 1 {
                assert(segments(s) =~= seq![grown]);
                assert(grown =~= s);
            } else {
                assert(segments(s).drop_last() =~= before.drop_last());
                assert(init == spec_joined(before.drop_last()) + seq!['/'] + before.last());
                assert(s =~= init.push(s.last()));
                assert(s =~= spec_joined(before.drop_last()) + seq!['/'] + grown);
            }
        }
    }
}

/// A text without separator is its own single segment.
pub proof fn lemma_segments_of_part(part: Seq<char>)
    requires
        !part.contains('/'),
    ensures
        segments(part) == seq![part],
    decreases part.len(),
{
    if part.len() == 0 {
        assert(part =~= Seq::<char>::empty());
    } else {
        let init = part.drop_last();
        assert forall|j: int| 0 <= j < init.len() implies init[j] != '/' by {
            assert(part.contains(part[j]));
        }
        lemma_segments_of_part(init);
        assert(part.contains(part.last()));
        assert(init.push(part.last()) =~= part);
        assert(seq![init].drop_last().push(part) =~= seq![part]);
    }
}

/// Behind a path and a separator, a text without separator is one more
/// segment.
pub proof fn lemma_segments_extend(s: Seq<char>, part: Seq<char>)
    requires
        !part.contains('/'),
    ensures
        segments(s + seq!['/'] + part) == segments(s).push(part),
    decreases part.len(),
{
    let whole = s + seq!['/'] + part;
    if part.len() == 0 {
        assert(whole.drop_last() =~= s);
        assert(part =~= Seq::<char>::empty());
    } else {
        let init = part.drop_last();
        assert forall|j: int| 0 <= j < init.len() implies init[j] != '/' by {
            assert(part.contains(part[j]));
        }
        lemma_segments_extend(s, init);
        assert(part.contains(part.last()));
        assert(whole.drop_last() =~= s + seq!['/'] + init);
        assert(whole.last() == part.last());
        assert(init.push(part.last()) =~= part);
        assert(segments(s).push(init).drop_last() =~= segments(s));
    }
}

/// Parts that are all file names are the segments, and the components, of
/// their joining.
pub proof fn lemma_joined_reads_back(parts: Seq<Seq<char>>)
    requires
        parts.len() > 0,
        forall|i: int| 0 <= i < parts.len() ==> spec_is_file_name(#[trigger] parts[i]),
    ensures
        segments(spec_joined(parts)) == parts,
        spec_components(spec_joined(parts)) == parts,
        !spec_is_absolute(spec_joined(parts)),
    decreases parts.len(),
{
    if parts.len() == 1 {
        lemma_segments_of_part(parts[0]);
        assert(seq![parts[0]] =~= parts);
        assert(parts.drop_last() =~= Seq::<Seq<char>>::empty());
        assert(counted(parts.drop_last()) =~= Seq::<Seq<char>>::empty());
        assert(counted(parts) =~= parts);
        assert(parts[0].contains(parts[0][0]));
    } else {
        let init = parts.drop_last();
        lemma_joined_reads_back(init);
        lemma_segments_extend(spec_joined(init), parts.last());
        assert(init.push(parts.last()) =~= parts);
        assert(counted(parts) =~= counted(init).push(parts.last()));
        lemma_joined_starts_as_first(parts);
    }
}

/// A joining of several parts starts as its first part does.
proof fn lemma_joined_starts_as_first(parts: Seq<Seq<char>>)
    requires
        parts.len() > 0,
        parts[0].len() > 0,
    ensures
        spec_joined(parts).len() > 0,
        spec_joined(parts)[0] == parts[0][0],
    decreases parts.len(),
{
    if parts.len() > 1 {
        lemma_joined_starts_as_first(parts.drop_last());
    }
}

/// Every counted part is one of the parts, and counts.
pub proof fn lemma_counted_are_parts(parts: Seq<Seq<char>>)
    ensures
        forall|i: int|
            0 <= i < counted(parts).len() ==> counts(#[trigger] counted(parts)[i])
                && parts.contains(counted(parts)[i]),
    decreases parts.len(),
{
    if parts.len() > 0 {
        let init = parts.drop_last();
        lemma_counted_are_parts(init);
        assert forall|i: int| 0 <= i < counted(parts).len() implies counts(
            #[trigger] counted(parts)[i],
        ) && parts.contains(counted(parts)[i]) by {
            if i < counted(init).len() {
                let k = choose|k: int| 0 <= k < init.len() && init[k] == counted(init)[i];
                assert(parts[k] == counted(parts)[i]);
            } else {
                assert(parts[parts.len() - 1] == counted(parts)[i]);
            }
        }
    }
}

/// Every component of a path is a file name or `..`.
pub proof fn lemma_components_are_names(s: Seq<char>)
    ensures
        forall|i: int|
            0 <= i < spec_components(s).len() ==> spec_is_file_name(#[trigger] spec_components(s)[i])
                || spec_components(s)[i] == dotdot(),
{
    lemma_counted_are_parts(segments(s));
    lemma_segments_hold_no_separator(s);
    assert forall|i: int| 0 <= i < spec_components(s).len() implies spec_is_file_name(
        #[trigger] spec_components(s)[i],
    ) || spec_components(s)[i] == dotdot() by {
        let part = spec_components(s)[i];
        let k = choose|k: int| 0 <= k < segments(s).len() && segments(s)[k] == part;
        assert(!segments(s)[k].contains('/'));
    }
}

/// A text is a file name exactly when it is the file name of itself, read
/// as a path.
pub proof fn lemma_file_name_of_itself(part: Seq<char>)
    ensures
        spec_is_file_name(part) <==> spec_file_name(part) == Some(part),
{
    if spec_is_file_name(part) {
        lemma_segments_of_part(part);
        assert(seq![part].drop_last() =~= Seq::<Seq<char>>::empty());
        assert(counted(seq![part].drop_last()) =~= Seq::<Seq<char>>::empty());
        assert(counted(seq![part]) =~= seq![part]);
    }
    if spec_file_name(part) == Some(part) {
        lemma_components_are_names(part);
        assert(spec_is_file_name(spec_components(part).last()));
    }
}

/// A file name taken from a directory is one more component behind the
/// components of the directory.
pub proof fn lemma_components_of_join(base: Seq<char>, name: Seq<char>)
    requires
        spec_is_file_name(name),
    ensures
        spec_components(spec_join(base, name)) == spec_components(base).push(name),
        spec_is_absolute(spec_join(base, name)) == spec_is_absolute(base),
{
    assert(name.contains(name[0]));
    if base.len() > 0 && base.last() != '/' {
        lemma_segments_extend(base, name);
        assert(segments(base).push(name).drop_last() =~= segments(base));
    } else if base.len() == 0 {
        assert(base + name =~= name);
        lemma_segments_of_part(name);
        let nothing = Seq::<char>::empty();
        assert(base =~= nothing);
        assert(seq![name].drop_last() =~= Seq::<Seq<char>>::empty());
        assert(counted(seq![name].drop_last()) =~= Seq::<Seq<char>>::empty());
        assert(seq![nothing].drop_last() =~= Seq::<Seq<char>>::empty());
        assert(counted(seq![nothing].drop_last()) =~= Seq::<Seq<char>>::empty());
        assert(counted(seq![nothing]) =~= Seq::<Seq<char>>::empty());
        assert(counted(seq![name]) =~= Seq::<Seq<char>>::empty().push(name));
    } else {
        let above = base.drop_last();
        assert(base =~= above.push('/'));
        assert(base + name =~= above + seq!['/'] + name);
        lemma_segments_extend(above, name);
        assert(segments(above).push(name).drop_last() =~= segments(above));
        assert(segments(base).drop_last() =~= segments(above));
    }
}

/// Taken from any directory, a file name is the file name of the result.
pub proof fn lemma_file_name_of_join(base: Seq<char>, name: Seq<char>)
    requires
        spec_is_file_name(name),
    ensures
        spec_file_name(spec_join(base, name)) == Some(name),
{
    lemma_components_of_join(base, name);
}

/// A file name taken from a directory within the stage lies within the
/// stage.
pub proof fn lemma_join_stays_contained(base: Seq<char>, name: Seq<char>)
    requires
        spec_is_contained(base),
        spec_is_file_name(name),
    ensures
        spec_is_contained(spec_join(base, name)),
{
    lemma_components_of_join(base, name);
}

/// Once a `..` finds no component to take back, nothing is left however the
/// parts go on.
pub proof fn lemma_resolved_stays_none(parts: Seq<Seq<char>>, upto: int)
    requires
        0 <= upto <= parts.len(),
        resolved(parts.take(upto)) is None,
    ensures
        resolved(parts) is None,
    decreases parts.len(),
{
    if upto < parts.len() {
        assert(parts.drop_last().take(upto) =~= parts.take(upto));
        lemma_resolved_stays_none(parts.drop_last(), upto);
    } else {
        assert(parts.take(upto) =~= parts);
    }
}

/// What is left after resolving holds no `..`: each part kept is a
/// component that was given and is not `..`.
pub proof fn lemma_resolved_keeps_names(parts: Seq<Seq<char>>)
    requires
        resolved(parts) is Some,
    ensures
        forall|i: int|
            0 <= i < resolved(parts)->0.len() ==> (#[trigger] resolved(parts)->0[i]) != dotdot()
                && parts.contains(resolved(parts)->0[i]),
    decreases parts.len(),
{
    if parts.len() > 0 {
        let init = parts.drop_last();
        lemma_resolved_keeps_names(init);
        let kept = resolved(init)->0;
        let now = resolved(parts)->0;
        assert forall|i: int| 0 <= i < now.len() implies (#[trigger] now[i]) != dotdot()
            && parts.contains(now[i]) by {
            if i < kept.len() {
                let k = choose|k: int| 0 <= k < init.len() && init[k] == kept[i];
                assert(parts[k] == now[i]);
            } else {
                assert(parts[parts.len() - 1] == now[i]);
            }
        }
    }
}

/// Resolving succeeds exactly when the walk along the parts never rises
/// above its start, and then ends as deep as parts are kept.
pub proof fn lemma_resolved_iff_never_above(parts: Seq<Seq<char>>)
    ensures
        resolved(parts) is Some <==> forall|k: int|
            0 <= k <= parts.len() ==> depth(#[trigger] parts.take(k)) >= 0,
        resolved(parts) is Some ==> resolved(parts)->0.len() == depth(parts),
    decreases parts.len(),
{
    if parts.len() == 0 {
        assert forall|k: int| 0 <= k <= parts.len() implies depth(#[trigger] parts.take(k))
            >= 0 by {
            assert(parts.take(k) =~= parts);
        }
    } else {
        let init = parts.drop_last();
        lemma_resolved_iff_never_above(init);
        assert(parts.take(parts.len() as int) =~= parts);
        assert forall|k: int| 0 <= k <= init.len() implies parts.take(k) == init.take(k) by {
            assert(parts.take(k) =~= init.take(k));
        }
        if resolved(parts) is Some {
            assert forall|k: int| 0 <= k <= parts.len() implies depth(#[trigger] parts.take(k))
                >= 0 by {
                if k <= init.len() {
                    assert(parts.take(k) == init.take(k));
                }
            }
        }
        if forall|k: int| 0 <= k <= parts.len() ==> depth(#[trigger] parts.take(k)) >= 0 {
            assert forall|k: int| 0 <= k <= init.len() implies depth(#[trigger] init.take(k))
                >= 0 by {
                assert(parts.take(k) == init.take(k));
            }
            assert(depth(parts.take(parts.len() as int)) >= 0);
        }
    }
}

/// Whether the path `s` starts at the root.
pub fn is_absolute(s: &str) -> (absolute: bool)
    ensures
        absolute == spec_is_absolute(s@),
{
    !s.is_empty() && s.get_char(0) == '/'
}

/// The components of the path `s`.
pub fn components(s: &str) -> (parts: Vec<String>)
    ensures
        parts.deep_view() == spec_components(s@),
{
    let n = s.unicode_len();
    let dot = ".".to_owned();
    proof {
        reveal_strlit(".");
        assert(dot@ =~= self::dot());
    }
    let mut parts: Vec<String> = Vec::new();
    let mut start: usize = 0;
    let mut i: usize = 0;
    let ghost mut done: Seq<Seq<char>> = Seq::empty();
    assert(s@.subrange(0, 0) =~= Seq::<char>::empty());
    assert(s@.take(0) =~= Seq::<char>::empty());
    assert(Seq::<Seq<char>>::empty().push(Seq::<char>::empty()) =~= seq![Seq::<char>::empty()]);
    for c in it: s.chars()
        invariant
            it.seq() == s@,
            n == s@.len(),
            i == it.index(),
            start <= i <= n,
            dot@ == self::dot(),
            segments(s@.take(i as int)) == done.push(s@.subrange(start as int, i as int)),
            parts.deep_view() == counted(done),
    {
        proof {
            assert(s@.take(i + 1).drop_last() =~= s@.take(i as int));
            assert(s@.take(i + 1).last() == c);
        }
        if c == '/' {
            let part = s.substring_char(start, i).to_owned();
            proof {
                assert(done.push(part@).drop_last() =~= done);
                assert(s@.subrange(i + 1, i + 1) =~= Seq::<char>::empty());
            }
            if !part.as_str().is_empty() && part != dot {
                parts.push(part);
                assert(parts.deep_view() =~= counted(done).push(part@));
            }
            proof {
                done = done.push(part@);
            }
            start = i + 1;
        } else {
            proof {
                let before = done.push(s@.subrange(start as int, i as int));
                assert(before.drop_last() =~= done);
                assert(before.last().push(c) =~= s@.subrange(start as int, i + 1));
            }
        }
        i += 1;
    }
    let part = s.substring_char(start, n).to_owned();
    proof {
        assert(s@.take(n as int) =~= s@);
        assert(done.push(part@).drop_last() =~= done);
    }
    if !part.as_str().is_empty() && part != dot {
        parts.push(part);
        assert(parts.deep_view() =~= counted(done).push(part@));
    }
    parts
}

/// `parts` with a separator between each two.
pub fn joined(parts: &Vec<String>) -> (s: String)
    ensures
        s@ == spec_joined(parts.deep_view()),
{
    let mut out = String::new();
    let mut i: usize = 0;
    while i < parts.len()
        invariant
            i <= parts.len(),
            out@ == spec_joined(parts.deep_view().take(i as int)),
        decreases parts.len() - i,
    {
        proof {
            let next = parts.deep_view().take(i + 1);
            assert(next.drop_last() =~= parts.deep_view().take(i as int));
            assert(next.last() == parts[i as int]@);
        }
        if i > 0 {
            out.append("/");
            proof {
                reveal_strlit("/");
                assert("/"@ =~= seq!['/']);
            }
        }
        out.append(parts[i].as_str());
        i += 1;
    }
    assert(parts.deep_view().take(i as int) =~= parts.deep_view());
    out
}

/// The last component of the path `s`, unless there is none or it is `..`.
pub fn file_name(s: &str) -> (name: Option<String>)
    ensures
        name.deep_view() == spec_file_name(s@),
{
    let mut parts = components(s);
    let dotdot = "..".to_owned();
    proof {
        reveal_strlit("..");
        assert(dotdot@ =~= self::dotdot());
    }
    match parts.pop() {
        Some(last) => if last != dotdot {
            Some(last)
        } else {
            None
        },
        None => None,
    }
}

/// Whether `part` names an entry of a directory: it is not empty, holds no
/// separator and is neither `.` nor `..`.
pub fn is_file_name(part: &str) -> (yes: bool)
    ensures
        yes == spec_is_file_name(part@),
{
    let name = file_name(part);
    proof {
        lemma_file_name_of_itself(part@);
    }
    match name {
        Some(name) => name == part.to_owned(),
        None => false,
    }
}

/// The path `rest` taken from the directory `base`.
pub fn join(base: &str, rest: &str) -> (s: String)
    ensures
        s@ == spec_join(base@, rest@),
{
    if is_absolute(rest) {
        rest.to_owned()
    } else {
        let n = base.unicode_len();
        let mut out = base.to_owned();
        if n > 0 && base.get_char(n - 1) != '/' {
            out.append("/");
            proof {
                reveal_strlit("/");
                assert("/"@ =~= seq!['/']);
            }
        }
        out.append(rest);
        out
    }
}

/// What is left of the path `s` below the directory `base`, if `s` lies
/// below it.
pub fn strip_prefix(s: &str, base: &str) -> (rest: Option<String>)
    ensures
        rest.deep_view() == spec_strip_prefix(s@, base@),
{
    let parts = components(s);
    let above = components(base);
    if is_absolute(s) != is_absolute(base) || above.len() > parts.len() {
        return None;
    }
    let mut i: usize = 0;
    while i < above.len()
        invariant
            i <= above.len() <= parts.len(),
            parts.deep_view() == spec_components(s@),
            above.deep_view() == spec_components(base@),
            parts.deep_view().take(i as int) == above.deep_view().take(i as int),
        decreases above.len() - i,
    {
        if parts[i] != above[i] {
            proof {
                let n = above.len() as int;
                assert(parts.deep_view()[i as int] == parts[i as int]@);
                assert(above.deep_view()[i as int] == above[i as int]@);
                assert(parts.deep_view().take(n)[i as int] != above.deep_view()[i as int]);
            }
            return None;
        }
        proof {
            assert(parts.deep_view().take(i + 1) =~= parts.deep_view().take(i as int).push(
                parts[i as int]@,
            ));
            assert(above.deep_view().take(i + 1) =~= above.deep_view().take(i as int).push(
                above[i as int]@,
            ));
        }
        i += 1;
    }
    assert(above.deep_view().take(i as int) =~= above.deep_view());
    let mut below: Vec<String> = Vec::new();
    let mut parts = parts;
    let ghost all = parts.deep_view();
    while parts.len() > i
        invariant
            i <= parts.len() <= all.len(),
            parts.deep_view() == all.take(parts.len() as int),
            forall|k: int|
                0 <= k < below.len() ==> (#[trigger] below[k])@ == all[all.len() - 1 - k],
            below.len() + parts.len() == all.len(),
        decreases parts.len(),
    {
        let ghost before = parts.deep_view();
        let last = parts.pop().unwrap();
        proof {
            assert(last@ == before[before.len() - 1]);
            assert(parts.deep_view() =~= all.take(parts.len() as int));
        }
        below.push(last);
    }
    let mut rest: Vec<String> = Vec::new();
    while below.len() > 0
        invariant
            rest.len() + below.len() == all.len() - i,
            i <= all.len(),
            forall|k: int|
                0 <= k < below.len() ==> (#[trigger] below[k])@ == all[all.len() - 1 - k],
            rest.deep_view() == all.subrange(i as int, i + rest.len()),
        decreases below.len(),
    {
        let ghost n = below.len();
        let next = below.pop().unwrap();
        proof {
            assert(next@ == all[all.len() - n]);
        }
        rest.push(next);
        proof {
            assert(rest.deep_view() =~= all.subrange(i as int, i + rest.len()));
        }
    }
    assert(rest.deep_view() =~= all.skip(i as int));
    Some(joined(&rest))
}

/// The directory that holds the last component of the path `s`.
pub fn parent(s: &str) -> (dir: Option<String>)
    ensures
        dir.deep_view() == spec_parent(s@),
{
    let mut parts = components(s);
    let ghost all = parts.deep_view();
    if parts.len() == 0 {
        return None;
    }
    parts.pop();
    assert(parts.deep_view() =~= all.drop_last());
    let rest = joined(&parts);
    if is_absolute(s) {
        let mut out = "/".to_owned();
        proof {
            reveal_strlit("/");
            assert("/"@ =~= seq!['/']);
        }
        out.append(rest.as_str());
        Some(out)
    } else {
        Some(rest)
    }
}

} // verus!

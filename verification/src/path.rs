//! Slash-separated paths.
//!
//! A path is a sequence of units: the bytes that the system hands out, or the
//! characters of a text.

use vstd::prelude::*;
use vstd::utf8::*;
use crate::sort::views;
use crate::text::{characters, lemma_encoding_concat, lemma_encoding_injective, text_of};

verus! {

/// What a path is made of.
pub trait PathUnit: Copy {
    /// Whether the unit is a slash.
    spec fn separates(self) -> bool;

    /// Whether the unit is a dot.
    spec fn is_dot(self) -> bool;

    /// The slash.
    spec fn slash() -> Self;

    /// Whether the unit is a slash.
    fn is_separator(&self) -> (r: bool)
        ensures
            r == self.separates(),
    ;

    /// Whether the unit is a dot.
    fn is_period(&self) -> (r: bool)
        ensures
            r == self.is_dot(),
    ;

    /// Whether two units are the same.
    fn same(&self, other: &Self) -> (r: bool)
        ensures
            r == (*self == *other),
    ;

    /// The slash.
    fn separator() -> (r: Self)
        ensures
            r == Self::slash(),
            r.separates(),
    ;
}

impl PathUnit for u8 {
    open spec fn separates(self) -> bool {
        self == 47
    }

    open spec fn is_dot(self) -> bool {
        self == 46
    }

    open spec fn slash() -> u8 {
        47
    }

    fn is_separator(&self) -> (r: bool) {
        *self == 47
    }

    fn is_period(&self) -> (r: bool) {
        *self == 46
    }

    fn same(&self, other: &u8) -> (r: bool) {
        *self == *other
    }

    fn separator() -> (r: u8) {
        47
    }
}

impl PathUnit for char {
    open spec fn separates(self) -> bool {
        self == '/'
    }

    open spec fn is_dot(self) -> bool {
        self == '.'
    }

    open spec fn slash() -> char {
        '/'
    }

    fn is_separator(&self) -> (r: bool) {
        *self == '/'
    }

    fn is_period(&self) -> (r: bool) {
        *self == '.'
    }

    fn same(&self, other: &char) -> (r: bool) {
        *self == *other
    }

    fn separator() -> (r: char) {
        '/'
    }
}

/// What stands between the slashes of a path, empty pieces among them.
pub open spec fn segments<T: PathUnit>(path: Seq<T>) -> Seq<Seq<T>>
    decreases path.len(),
{
    if path.len() == 0 {
        seq![seq![]]
    } else if path.last().separates() {
        segments(path.drop_last()).push(seq![])
    } else {
        let before = segments(path.drop_last());
        before.drop_last().push(before.last().push(path.last()))
    }
}

/// Whether a segment is a single dot.
pub open spec fn single_dot<T: PathUnit>(segment: Seq<T>) -> bool {
    segment.len() == 1 && segment[0].is_dot()
}

/// Whether a segment is two dots.
pub open spec fn double_dot<T: PathUnit>(segment: Seq<T>) -> bool {
    segment.len() == 2 && segment[0].is_dot() && segment[1].is_dot()
}

/// The segments that count: not the empty ones, and not a single dot unless the path
/// begins with it.
pub open spec fn counted<T: PathUnit>(pieces: Seq<Seq<T>>) -> Seq<Seq<T>>
    decreases pieces.len(),
{
    if pieces.len() == 0 {
        seq![]
    } else {
        let before = counted(pieces.drop_last());
        let last = pieces.last();
        if last.len() == 0 || (single_dot(last) && pieces.len() > 1) {
            before
        } else {
            before.push(last)
        }
    }
}

/// Whether a path begins with a slash.
pub open spec fn rooted<T: PathUnit>(path: Seq<T>) -> bool {
    path.len() > 0 && path[0].separates()
}

/// The components of a path: the root, if it is rooted, and the segments that count.
pub open spec fn components<T: PathUnit>(path: Seq<T>) -> Seq<Seq<T>> {
    if rooted(path) {
        seq![seq![T::slash()]] + counted(segments(path))
    } else {
        counted(segments(path))
    }
}

/// Whether `path` is `base` or lies below it: the components of `base` are the first
/// components of `path`.
pub open spec fn within<T: PathUnit>(path: Seq<T>, base: Seq<T>) -> bool {
    components(base).is_prefix_of(components(path))
}

/// The last component of a path, unless that is the root, a dot or two dots.
pub open spec fn file_name<T: PathUnit>(path: Seq<T>) -> Option<Seq<T>> {
    let parts = components(path);
    if parts.len() == 0 || parts.last()[0].separates() || single_dot(parts.last()) || double_dot(
        parts.last(),
    ) {
        None
    } else {
        Some(parts.last())
    }
}

/// `path` as seen from the directory `base`: a rooted path replaces `base`, any other is
/// appended to it with a slash in between where `base` does not end in one.
pub open spec fn resolved<T: PathUnit>(base: Seq<T>, path: Seq<T>) -> Seq<T> {
    if rooted(path) {
        path
    } else if base.len() == 0 || base.last().separates() {
        base + path
    } else {
        base.push(T::slash()) + path
    }
}

fn segments_of<T: PathUnit>(path: &[T]) -> (r: Vec<Vec<T>>)
    ensures
        views(r@) == segments(path@),
{
    let mut done: Vec<Vec<T>> = Vec::new();
    let mut current: Vec<T> = Vec::new();
    let mut i: usize = 0;
    proof {
        assert(views(done@).push(current@) =~= segments(path@.take(0)));
    }
    while i < path.len()
        invariant
            i <= path@.len(),
            views(done@).push(current@) == segments(path@.take(i as int)),
        decreases path.len() - i,
    {
        let ghost before = views(done@).push(current@);
        let ghost kept = views(done@);
        assert(path@.take(i + 1).drop_last() =~= path@.take(i as int));
        assert(before.drop_last() =~= kept);
        if path[i].is_separator() {
            let ghost old_done = done@;
            let ghost ended = current;
            done.push(current);
            current = Vec::new();
            proof {
                assert(views(done@) =~= kept.push(ended@));
                assert(views(done@).push(current@) =~= before.push(seq![]));
            }
        } else {
            current.push(path[i]);
        }
        i = i + 1;
    }
    assert(path@.take(path@.len() as int) =~= path@);
    let ghost kept = views(done@);
    let ghost ended = current;
    done.push(current);
    assert(views(done@) =~= kept.push(ended@));
    done
}

/// The components of a path.
pub fn components_of<T: PathUnit>(path: &[T]) -> (r: Vec<Vec<T>>)
    ensures
        views(r@) == components(path@),
{
    let mut out: Vec<Vec<T>> = Vec::new();
    if path.len() > 0 && path[0].is_separator() {
        let mut root: Vec<T> = Vec::new();
        root.push(T::separator());
        proof {
            assert(root@ =~= seq![T::slash()]);
        }
        out.push(root);
    }
    let ghost root_part = views(out@);
    proof {
        if rooted(path@) {
            assert(root_part =~= seq![seq![T::slash()]]);
        } else {
            assert(root_part =~= seq![]);
        }
    }
    let pieces = segments_of(path);
    let ghost all = views(pieces@);
    let ghost pieces_seq = pieces@;
    let count: usize = pieces.len();
    let mut n: usize = 0;
    proof {
        assert(all.take(0) =~= seq![]);
        assert(root_part + counted(all.take(0)) =~= root_part);
    }
    for piece in it: pieces.into_iter()
        invariant
            it.seq() == pieces_seq,
            all == views(pieces_seq),
            n == it.index(),
            pieces_seq.len() == count,
            views(out@) == root_part + counted(all.take(n as int)),
    {
        let ghost kept = views(out@);
        assert(all.take(n + 1).drop_last() =~= all.take(n as int));
        assert(all.take(n + 1).last() == piece@);
        if piece.len() == 0 || (n > 0 && piece.len() == 1 && piece[0].is_period()) {
            assert(counted(all.take(n + 1)) == counted(all.take(n as int)));
        } else {
            let ghost value = piece@;
            out.push(piece);
            assert(views(out@) =~= kept.push(value));
            assert(views(out@) =~= root_part + counted(all.take(n + 1)));
        }
        n = n + 1;
    }
    assert(all.take(all.len() as int) =~= all);
    proof {
        if !rooted(path@) {
            assert(root_part + counted(all) =~= counted(all));
        }
    }
    out
}

fn same_units<T: PathUnit>(a: &Vec<T>, b: &Vec<T>) -> (r: bool)
    ensures
        r == (a@ == b@),
{
    if a.len() != b.len() {
        return false;
    }
    let mut i: usize = 0;
    while i < a.len()
        invariant
            a@.len() == b@.len(),
            i <= a@.len(),
            forall|k: int| 0 <= k < i ==> a@[k] == b@[k],
        decreases a.len() - i,
    {
        if !a[i].same(&b[i]) {
            return false;
        }
        i = i + 1;
    }
    assert(a@ =~= b@);
    true
}

/// Whether `path` is `base` or lies below it.
pub fn lies_within<T: PathUnit>(path: &[T], base: &[T]) -> (r: bool)
    ensures
        r == within(path@, base@),
{
    let p = components_of(path);
    let b = components_of(base);
    let ghost pv = views(p@);
    let ghost bv = views(b@);
    if p.len() < b.len() {
        return false;
    }
    let mut i: usize = 0;
    while i < b.len()
        invariant
            b@.len() <= p@.len(),
            i <= b@.len(),
            pv == views(p@),
            bv == views(b@),
            pv == components(path@),
            bv == components(base@),
            forall|k: int| 0 <= k < i ==> bv[k] == pv[k],
        decreases b.len() - i,
    {
        assert(bv[i as int] == b@[i as int]@);
        assert(pv[i as int] == p@[i as int]@);
        if !same_units(&b[i], &p[i]) {
            assert(bv[i as int] != pv.subrange(0, bv.len() as int)[i as int]);
            return false;
        }
        i = i + 1;
    }
    assert(bv =~= pv.subrange(0, bv.len() as int));
    true
}

/// The last component of a path, unless that is the root, a dot or two dots.
pub fn name_of(path: &str) -> (r: Option<String>)
    ensures
        match file_name(path@) {
            Some(name) => r is Some && r->0@ == name,
            None => r is None,
        },
{
    let units = characters(path);
    let parts = components_of(units.as_slice());
    let ghost all = views(parts@);
    if parts.len() == 0 {
        return None;
    }
    proof {
        lemma_components_nonempty(path@, all.len() - 1);
    }
    let last = &parts[parts.len() - 1];
    assert(all.last() == last@);
    if last[0].is_separator() || (last.len() == 1 && last[0].is_period()) || (last.len() == 2
        && last[0].is_period() && last[1].is_period()) {
        None
    } else {
        Some(text_of(last))
    }
}

proof fn lemma_counted_nonempty<T: PathUnit>(pieces: Seq<Seq<T>>, i: int)
    requires
        0 <= i < counted(pieces).len(),
    ensures
        counted(pieces)[i].len() > 0,
    decreases pieces.len(),
{
    if i < counted(pieces.drop_last()).len() {
        lemma_counted_nonempty(pieces.drop_last(), i);
    }
}

/// No component of a path is empty.
pub proof fn lemma_components_nonempty<T: PathUnit>(path: Seq<T>, i: int)
    requires
        0 <= i < components(path).len(),
    ensures
        components(path)[i].len() > 0,
{
    if rooted(path) {
        if i > 0 {
            lemma_counted_nonempty(segments(path), i - 1);
        }
    } else {
        lemma_counted_nonempty(segments(path), i);
    }
}

/// `path` as seen from the directory `base`.
pub fn resolve<T: PathUnit>(base: &[T], path: &[T]) -> (r: Vec<T>)
    ensures
        r@ == resolved(base@, path@),
{
    let mut out: Vec<T> = Vec::new();
    if !(path.len() > 0 && path[0].is_separator()) {
        let mut i: usize = 0;
        while i < base.len()
            invariant
                i <= base@.len(),
                out@ == base@.take(i as int),
            decreases base.len() - i,
        {
            out.push(base[i]);
            i = i + 1;
            assert(out@ =~= base@.take(i as int));
        }
        assert(base@.take(base@.len() as int) =~= base@);
        if base.len() > 0 && !base[base.len() - 1].is_separator() {
            out.push(T::separator());
        }
    }
    let ghost start = out@;
    let mut j: usize = 0;
    while j < path.len()
        invariant
            j <= path@.len(),
            out@ == start + path@.take(j as int),
        decreases path.len() - j,
    {
        out.push(path[j]);
        j = j + 1;
        assert(out@ =~= start + path@.take(j as int));
    }
    assert(path@.take(path@.len() as int) =~= path@);
    assert(out@ =~= resolved(base@, path@));
    out
}

/// Whether a segment names a file: it is not empty, neither one dot nor two, and no slash
/// stands in it.
pub open spec fn plain_name<T: PathUnit>(name: Seq<T>) -> bool {
    &&& name.len() > 0
    &&& !single_dot(name)
    &&& !double_dot(name)
    &&& forall|i: int| 0 <= i < name.len() ==> !(#[trigger] name[i]).separates()
}

proof fn lemma_segments_nonempty<T: PathUnit>(path: Seq<T>)
    ensures
        segments(path).len() > 0,
    decreases path.len(),
{
    if path.len() > 0 {
        lemma_segments_nonempty(path.drop_last());
    }
}

/// A name that follows a slash is a segment of its own.
proof fn lemma_segments_of_joined<T: PathUnit>(base: Seq<T>, slash: T, name: Seq<T>)
    requires
        slash.separates(),
        forall|i: int| 0 <= i < name.len() ==> !(#[trigger] name[i]).separates(),
    ensures
        segments(base.push(slash) + name) == segments(base).push(name),
    decreases name.len(),
{
    let path = base.push(slash) + name;
    if name.len() == 0 {
        assert(path =~= base.push(slash));
        assert(path.drop_last() =~= base);
        assert(name =~= seq![]);
    } else {
        let shorter = name.drop_last();
        assert(path.drop_last() =~= base.push(slash) + shorter);
        assert(path.last() == name.last());
        assert(!name[name.len() - 1].separates());
        assert forall|i: int| 0 <= i < shorter.len() implies !(
        #[trigger] shorter[i]).separates() by {
            assert(shorter[i] == name[i]);
        }
        lemma_segments_of_joined(base, slash, shorter);
        let before = segments(base).push(shorter);
        assert(before.drop_last() =~= segments(base));
        assert(before.last().push(name.last()) =~= name);
    }
}

/// The components of a directory, and behind them a name in it, are the components of the
/// two joined by a slash.
pub proof fn law_components_of_joined<T: PathUnit>(base: Seq<T>, slash: T, name: Seq<T>)
    requires
        slash.separates(),
        base.len() > 0,
        plain_name(name),
    ensures
        components(base.push(slash) + name) == components(base).push(name),
{
    let path = base.push(slash) + name;
    lemma_segments_nonempty(base);
    lemma_segments_of_joined(base, slash, name);
    let pieces = segments(base).push(name);
    assert(pieces.drop_last() =~= segments(base));
    assert(pieces.last() == name);
    assert(path[0] == base[0]);
    assert(components(path) =~= components(base).push(name));
}

/// The file name of a directory joined with a name is that name.
pub proof fn law_file_name_of_joined<T: PathUnit>(base: Seq<T>, slash: T, name: Seq<T>)
    requires
        slash.separates(),
        base.len() > 0,
        plain_name(name),
    ensures
        file_name(base.push(slash) + name) == Some(name),
{
    law_components_of_joined(base, slash, name);
    assert(!name[0].separates());
}

/// A path lies within itself.
pub proof fn law_within_itself<T: PathUnit>(path: Seq<T>)
    ensures
        within(path, path),
{
}

/// What lies within a directory that lies within another lies within that other one.
pub proof fn law_within_transitive<T: PathUnit>(path: Seq<T>, base: Seq<T>, outer: Seq<T>)
    requires
        within(path, base),
        within(base, outer),
    ensures
        within(path, outer),
{
    let o = components(outer);
    let b = components(base);
    let p = components(path);
    assert(o =~= b.subrange(0, o.len() as int));
    assert(b =~= p.subrange(0, b.len() as int));
    assert(o =~= p.subrange(0, o.len() as int));
}

/// What has a name in a directory lies within it, and two different names in a directory
/// do not lie within each other, not even where one begins with the other.
pub proof fn law_within_by_name<T: PathUnit>(base: Seq<T>, slash: T, name: Seq<T>, other: Seq<T>)
    requires
        slash.separates(),
        base.len() > 0,
        plain_name(name),
        plain_name(other),
    ensures
        within(base.push(slash) + name, base),
        within(base.push(slash) + name, base.push(slash) + other) <==> name == other,
{
    law_components_of_joined(base, slash, name);
    law_components_of_joined(base, slash, other);
    let b = components(base);
    assert(b =~= b.push(name).subrange(0, b.len() as int));
    if b.push(other).is_prefix_of(b.push(name)) {
        assert(b.push(other) =~= b.push(name).subrange(0, b.len() as int + 1));
        assert(b.push(other)[b.len() as int] == b.push(name)[b.len() as int]);
    }
}

/// Whether a path is rooted or has two dots among its segments. Any other path goes down
/// from the directory that it is seen from, step by step; where this one leads, inside or
/// out, only the file system can say.
pub open spec fn wanders<T: PathUnit>(path: Seq<T>) -> bool {
    rooted(path) || exists|i: int|
        0 <= i < segments(path).len() && double_dot(#[trigger] segments(path)[i])
}

/// Whether a path is rooted or has two dots among its segments.
pub fn is_wandering<T: PathUnit>(path: &[T]) -> (r: bool)
    ensures
        r == wanders(path@),
{
    if path.len() > 0 && path[0].is_separator() {
        return true;
    }
    let pieces = segments_of(path);
    let ghost all = segments(path@);
    let mut i: usize = 0;
    while i < pieces.len()
        invariant
            i <= pieces@.len(),
            all == segments(path@),
            views(pieces@) == all,
            forall|k: int| 0 <= k < i ==> !double_dot(#[trigger] all[k]),
        decreases pieces.len() - i,
    {
        let piece = &pieces[i];
        assert(piece@ == all[i as int]);
        if piece.len() == 2 && piece[0].is_period() && piece[1].is_period() {
            assert(double_dot(all[i as int]));
            return true;
        }
        i = i + 1;
    }
    false
}

/// A unit that is no slash goes on with the last segment.
proof fn lemma_segments_push<T: PathUnit>(path: Seq<T>, more: Seq<T>)
    requires
        forall|i: int| 0 <= i < more.len() ==> !(#[trigger] more[i]).separates(),
    ensures
        segments(path + more) == segments(path).drop_last().push(segments(path).last() + more),
    decreases more.len(),
{
    lemma_segments_nonempty(path);
    let s = segments(path);
    if more.len() == 0 {
        assert(path + more =~= path);
        assert(s.last() + more =~= s.last());
        assert(s.drop_last().push(s.last()) =~= s);
    } else {
        let shorter = more.drop_last();
        assert((path + more).drop_last() =~= path + shorter);
        assert((path + more).last() == more.last());
        assert(!more[more.len() - 1].separates());
        assert forall|i: int| 0 <= i < shorter.len() implies !(
        #[trigger] shorter[i]).separates() by {
            assert(shorter[i] == more[i]);
        }
        lemma_segments_push(path, shorter);
        let before = s.drop_last().push(s.last() + shorter);
        assert(before.drop_last() =~= s.drop_last());
        assert(before.last().push(more.last()) =~= s.last() + more);
    }
}

/// Only a slash has a slash in its encoding.
proof fn lemma_encoded_char(c: char)
    ensures
        c == '/' ==> encode_utf8(seq![c]) == seq![47u8],
        c != '/' ==> forall|i: int|
            0 <= i < encode_utf8(seq![c]).len() ==> !(#[trigger] encode_utf8(
                seq![c],
            )[i]).separates(),
{
    let u = c as u32;
    assert(seq![c].drop_first() =~= Seq::<char>::empty());
    assert(encode_utf8(Seq::<char>::empty()) =~= Seq::<u8>::empty());
    assert(encode_utf8(seq![c]) =~= encode_scalar(u));
    assert(u <= 0x7f ==> (u & 0x7F) as u8 == u as u8) by (bit_vector);
    assert((0xC0u8 | ((u >> 6) & 0x1F) as u8) >= 0x80) by (bit_vector);
    assert((0xE0u8 | ((u >> 12) & 0x0F) as u8) >= 0x80) by (bit_vector);
    assert((0xF0u8 | ((u >> 18) & 0x07) as u8) >= 0x80) by (bit_vector);
    assert((0x80u8 | (u & 0x3F) as u8) >= 0x80) by (bit_vector);
    assert((0x80u8 | ((u >> 6) & 0x3F) as u8) >= 0x80) by (bit_vector);
    assert((0x80u8 | ((u >> 12) & 0x3F) as u8) >= 0x80) by (bit_vector);
}

/// The segments of an encoded path are the encoded segments of the path.
proof fn lemma_encoded_segments(path: Seq<char>)
    ensures
        segments(encode_utf8(path)) == segments(path).map_values(
            |segment: Seq<char>| encode_utf8(segment),
        ),
    decreases path.len(),
{
    let f = |segment: Seq<char>| encode_utf8(segment);
    let nothing = Seq::<char>::empty();
    assert(encode_utf8(nothing) =~= Seq::<u8>::empty());
    if path.len() == 0 {
        assert(path =~= nothing);
        assert(segments(encode_utf8(path)) =~= segments(path).map_values(f));
    } else {
        let front = path.drop_last();
        let c = path.last();
        lemma_encoded_segments(front);
        lemma_segments_nonempty(front);
        assert(path =~= front + seq![c]);
        lemma_encoding_concat(front, seq![c]);
        lemma_encoded_char(c);
        let s = segments(front);
        let more = encode_utf8(seq![c]);
        let bytes = encode_utf8(front);
        assert(encode_utf8(path) == bytes + more);
        if c == '/' {
            assert((bytes + more).drop_last() =~= bytes);
            assert((bytes + more).last() == 47u8);
            assert(segments(bytes + more) =~= segments(bytes).push(seq![]));
            assert(segments(path) =~= s.push(seq![]));
            assert(segments(bytes + more) =~= segments(path).map_values(f));
        } else {
            lemma_segments_push(bytes, more);
            lemma_encoding_concat(s.last(), seq![c]);
            assert(s.last().push(c) =~= s.last() + seq![c]);
            assert(segments(bytes).last() == encode_utf8(s.last()));
            assert(segments(path) == s.drop_last().push(s.last().push(c)));
            assert(segments(bytes + more) =~= segments(path).map_values(f));
        }
    }
}

/// A path wanders exactly where its encoding does.
pub proof fn lemma_encoded_wanders(path: Seq<char>)
    ensures
        wanders(encode_utf8(path)) == wanders(path),
{
    lemma_encoded_segments(path);
    let s = segments(path);
    let b = segments(encode_utf8(path));
    if path.len() > 0 {
        assert(path =~= seq![path[0]] + path.drop_first());
        lemma_encoding_concat(seq![path[0]], path.drop_first());
        lemma_encoded_char(path[0]);
        if encode_utf8(seq![path[0]]).len() == 0 {
            assert(encode_utf8(seq![path[0]]) =~= encode_utf8(Seq::<char>::empty()));
            lemma_encoding_injective(seq![path[0]], Seq::<char>::empty());
        }
        assert(encode_utf8(path)[0] == encode_utf8(seq![path[0]])[0]);
        assert(rooted(encode_utf8(path)) == rooted(path));
    } else {
        assert(encode_utf8(path) =~= Seq::<u8>::empty());
    }
    let dots = seq!['.', '.'];
    is_ascii_chars_encode_utf8(dots);
    assert(encode_utf8(dots)[0] == dots[0] as u8 && encode_utf8(dots)[1] == dots[1] as u8);
    assert forall|i: int| 0 <= i < s.len() implies double_dot(#[trigger] s[i]) == double_dot(
        b[i],
    ) by {
        assert(b[i] == encode_utf8(s[i]));
        if double_dot(s[i]) {
            assert(s[i] =~= dots);
        }
        if double_dot(b[i]) {
            assert(b[i] =~= encode_utf8(dots));
            lemma_encoding_injective(s[i], dots);
        }
    }
}

/// What counts among pieces and more pieces is what counts among the first, followed by
/// pieces of the rest.
proof fn lemma_counted_of_joined<T: PathUnit>(pieces: Seq<Seq<T>>, more: Seq<Seq<T>>)
    ensures
        counted(pieces).is_prefix_of(counted(pieces + more)),
        forall|i: int|
            counted(pieces).len() <= i < counted(pieces + more).len() ==> more.contains(
                #[trigger] counted(pieces + more)[i],
            ),
    decreases more.len(),
{
    let all = pieces + more;
    if more.len() == 0 {
        assert(all =~= pieces);
    } else {
        let shorter = more.drop_last();
        lemma_counted_of_joined(pieces, shorter);
        assert(all.drop_last() =~= pieces + shorter);
        assert(all.last() == more.last());
        let before = counted(pieces + shorter);
        let base = counted(pieces);
        assert(base =~= before.subrange(0, base.len() as int));
        assert(base =~= counted(all).subrange(0, base.len() as int));
        assert forall|i: int| base.len() <= i < counted(all).len() implies more.contains(
            #[trigger] counted(all)[i],
        ) by {
            if i < before.len() {
                assert(counted(all)[i] == before[i]);
                let k = choose|k: int| 0 <= k < shorter.len() && shorter[k] == before[i];
                assert(more[k] == before[i]);
            } else {
                assert(more[more.len() - 1] == counted(all)[i]);
            }
        }
    }
}

/// What a path adds to the directory that it is seen from are segments of the path.
proof fn lemma_segments_of_resolved<T: PathUnit>(base: Seq<T>, slash: T, path: Seq<T>)
    requires
        slash.separates(),
    ensures
        segments(base.push(slash) + path) == segments(base) + segments(path),
    decreases path.len(),
{
    let whole = base.push(slash) + path;
    lemma_segments_nonempty(path);
    if path.len() == 0 {
        assert(whole =~= base.push(slash));
        assert(whole.drop_last() =~= base);
        assert(segments(whole) =~= segments(base) + segments(path));
    } else {
        let front = path.drop_last();
        assert(whole.drop_last() =~= base.push(slash) + front);
        assert(whole.last() == path.last());
        lemma_segments_of_resolved(base, slash, front);
        lemma_segments_nonempty(front);
        let s = segments(base) + segments(front);
        if path.last().separates() {
            assert(segments(whole) =~= segments(base) + segments(path));
        } else {
            assert(s.last() == segments(front).last());
            assert(s.drop_last() =~= segments(base) + segments(front).drop_last());
            assert(segments(whole) =~= segments(base) + segments(path));
        }
    }
}

/// A path that does not wander stays in the directory that it is seen from: what it leads
/// to lies within the directory, and no step behind the directory goes back up.
pub proof fn law_resolved_stays_inside<T: PathUnit>(base: Seq<T>, path: Seq<T>)
    requires
        base.len() > 0,
        !base.last().separates(),
        T::slash().separates(),
        !wanders(path),
    ensures
        within(resolved(base, path), base),
        forall|i: int|
            components(base).len() <= i < components(resolved(base, path)).len() ==> !double_dot(
                #[trigger] components(resolved(base, path))[i],
            ),
{
    let whole = resolved(base, path);
    assert(whole[0] == base[0]);
    lemma_segments_of_resolved(base, T::slash(), path);
    lemma_counted_of_joined(segments(base), segments(path));
    let c = counted(segments(base));
    let d = counted(segments(whole));
    assert(c =~= d.subrange(0, c.len() as int));
    let n = components(base).len();
    assert(components(base) =~= components(whole).subrange(0, n as int));
    assert forall|i: int| n <= i < components(whole).len() implies !double_dot(
        #[trigger] components(whole)[i],
    ) by {
        let k = if rooted(base) {
            i - 1
        } else {
            i
        };
        assert(components(whole)[i] == d[k]);
        assert(segments(path).contains(d[k]));
        let j = choose|j: int| 0 <= j < segments(path).len() && segments(path)[j] == d[k];
        assert(!double_dot(segments(path)[j]));
    }
}

/// A name that is plain has a plain encoding.
pub proof fn lemma_encoded_plain_name(name: Seq<char>)
    requires
        plain_name(name),
    ensures
        plain_name(encode_utf8(name)),
{
    let bytes = encode_utf8(name);
    lemma_encoded_no_slash(name);
    if bytes.len() == 0 {
        assert(bytes =~= encode_utf8(Seq::<char>::empty()));
        lemma_encoding_injective(name, Seq::<char>::empty());
    }
    let dot = seq!['.'];
    let dots = seq!['.', '.'];
    is_ascii_chars_encode_utf8(dot);
    is_ascii_chars_encode_utf8(dots);
    assert(encode_utf8(dot)[0] == dot[0] as u8);
    assert(encode_utf8(dots)[0] == dots[0] as u8 && encode_utf8(dots)[1] == dots[1] as u8);
    if single_dot(bytes) {
        assert(bytes =~= encode_utf8(dot));
        lemma_encoding_injective(name, dot);
    }
    if double_dot(bytes) {
        assert(bytes =~= encode_utf8(dots));
        lemma_encoding_injective(name, dots);
    }
}

proof fn lemma_encoded_no_slash(name: Seq<char>)
    requires
        forall|i: int| 0 <= i < name.len() ==> !(#[trigger] name[i]).separates(),
    ensures
        forall|i: int|
            0 <= i < encode_utf8(name).len() ==> !(#[trigger] encode_utf8(name)[i]).separates(),
    decreases name.len(),
{
    if name.len() == 0 {
        assert(encode_utf8(name) =~= Seq::<u8>::empty());
    } else {
        let front = name.drop_last();
        let c = name[name.len() - 1];
        assert(!c.separates());
        assert forall|i: int| 0 <= i < front.len() implies !(#[trigger] front[i]).separates() by {
            assert(front[i] == name[i]);
        }
        lemma_encoded_no_slash(front);
        assert(name =~= front + seq![c]);
        lemma_encoding_concat(front, seq![c]);
        lemma_encoded_char(c);
        let f = encode_utf8(front);
        let g = encode_utf8(seq![c]);
        assert forall|i: int| 0 <= i < encode_utf8(name).len() implies !(#[trigger] encode_utf8(
            name,
        )[i]).separates() by {
            if i < f.len() {
                assert(encode_utf8(name)[i] == f[i]);
            } else {
                assert(encode_utf8(name)[i] == g[i - f.len()]);
            }
        }
    }
}

/// A name as seen from a directory has the components of the directory, and the name behind
/// them.
pub proof fn law_components_of_resolved_name<T: PathUnit>(dir: Seq<T>, name: Seq<T>)
    requires
        T::slash().separates(),
        plain_name(name),
    ensures
        components(resolved(dir, name)) == components(dir).push(name),
        within(resolved(dir, name), dir),
{
    let whole = resolved(dir, name);
    assert(!name[0].separates());
    if dir.len() == 0 {
        assert(whole =~= name);
        let nothing = Seq::<T>::empty();
        assert(dir =~= nothing);
        lemma_segments_push(nothing, name);
        assert(nothing + name =~= name);
        assert(segments(nothing) =~= seq![nothing]);
        assert(segments(name) =~= seq![name]);
        assert(seq![name].drop_last() =~= Seq::<Seq<T>>::empty());
        assert(seq![nothing].drop_last() =~= Seq::<Seq<T>>::empty());
        assert(counted(Seq::<Seq<T>>::empty()) =~= Seq::<Seq<T>>::empty());
        assert(components(whole) =~= components(dir).push(name));
    } else if dir.last().separates() {
        let above = dir.drop_last();
        let slash = dir.last();
        assert(above.push(slash) =~= dir);
        lemma_segments_nonempty(above);
        lemma_segments_of_joined(above, slash, name);
        lemma_segments_of_joined(above, slash, Seq::<T>::empty());
        assert(dir + Seq::<T>::empty() =~= dir);
        let pieces = segments(above);
        assert(pieces.push(name).drop_last() =~= pieces);
        assert(pieces.push(Seq::<T>::empty()).drop_last() =~= pieces);
        assert(whole[0] == dir[0]);
        assert(components(whole) =~= components(dir).push(name));
    } else {
        law_components_of_joined(dir, T::slash(), name);
    }
    let c = components(dir);
    assert(c =~= c.push(name).subrange(0, c.len() as int));
}

/// A path is its segments with slashes between them: a further slash begins a new segment,
/// and anything else goes on with the last one.
pub proof fn law_segments_stand_between_slashes<T: PathUnit>(path: Seq<T>, unit: T)
    ensures
        segments(Seq::<T>::empty()) == seq![Seq::<T>::empty()],
        segments(path).len() > 0,
        unit.separates() ==> segments(path.push(unit)) == segments(path).push(Seq::<T>::empty()),
        !unit.separates() ==> segments(path.push(unit)) == segments(path).drop_last().push(
            segments(path).last().push(unit),
        ),
{
    lemma_segments_nonempty(path);
    assert(path.push(unit).drop_last() =~= path);
    assert(segments(Seq::<T>::empty()) =~= seq![Seq::<T>::empty()]);
    assert(segments(path.push(unit)) =~= if unit.separates() {
        segments(path).push(Seq::<T>::empty())
    } else {
        segments(path).drop_last().push(segments(path).last().push(unit))
    });
}

/// A slash is what separates: the slash of bytes and the slash of characters, and nothing
/// else; and a dot is a dot.
pub proof fn law_slashes_separate(byte: u8, c: char)
    ensures
        byte.separates() <==> byte == 0x2f,
        c.separates() <==> c == '/',
        byte.is_dot() <==> byte == 0x2e,
        c.is_dot() <==> c == '.',
        u8::slash() == 0x2f,
        char::slash() == '/',
{
}

/// A slash at the end of a path, and a dot behind it, lead nowhere else; two dots behind it
/// are a step of their own; and the root and the empty path have the components one expects.
pub proof fn law_components_of_dots<T: PathUnit>(base: Seq<T>, slash: T, dot: T)
    requires
        slash.separates(),
        dot.is_dot(),
        !dot.separates(),
        base.len() > 0,
    ensures
        components(base.push(slash)) == components(base),
        components(base.push(slash).push(dot)) == components(base),
        components(base.push(slash).push(dot).push(dot)) == components(base).push(seq![dot, dot]),
        components(Seq::<T>::empty()) == Seq::<Seq<T>>::empty(),
        components(seq![slash]) == seq![seq![T::slash()]],
        components(seq![dot]) == seq![seq![dot]],
        components(seq![slash, dot]) == seq![seq![T::slash()]],
        file_name(base.push(slash).push(dot).push(dot)) is None,
        file_name(Seq::<T>::empty()) is None,
        T::slash().separates() ==> file_name(seq![slash]) is None,
{
    let none = Seq::<T>::empty();
    let one = seq![dot];
    let two = seq![dot, dot];
    lemma_segments_nonempty(base);
    lemma_segments_of_joined(base, slash, none);
    lemma_segments_of_joined(base, slash, one);
    lemma_segments_of_joined(base, slash, two);
    assert(base.push(slash) + none =~= base.push(slash));
    assert(base.push(slash) + one =~= base.push(slash).push(dot));
    assert(base.push(slash) + two =~= base.push(slash).push(dot).push(dot));
    let s = segments(base);
    assert(s.push(none).drop_last() =~= s);
    assert(s.push(one).drop_last() =~= s);
    assert(s.push(two).drop_last() =~= s);
    assert(base.push(slash)[0] == base[0]);
    assert(base.push(slash).push(dot)[0] == base[0]);
    assert(base.push(slash).push(dot).push(dot)[0] == base[0]);
    assert(components(base.push(slash)) =~= components(base));
    assert(components(base.push(slash).push(dot)) =~= components(base));
    assert(components(base.push(slash).push(dot).push(dot)) =~= components(base).push(two));
    let nothing = Seq::<Seq<T>>::empty();
    assert(segments(none) =~= seq![none]);
    assert(seq![none].drop_last() =~= nothing);
    assert(counted(nothing) =~= nothing);
    assert(seq![none].last() == none);
    assert(counted(seq![none]) =~= nothing);
    assert(components(none) =~= nothing);
    assert(seq![slash].drop_last() =~= none);
    assert(segments(seq![slash]) =~= seq![none, none]);
    assert(seq![none, none].drop_last() =~= seq![none]);
    assert(components(seq![slash]) =~= seq![seq![T::slash()]]);
    assert(seq![dot].drop_last() =~= none);
    assert(none.push(dot) =~= one);
    assert(segments(seq![dot]) =~= seq![one]);
    assert(seq![one].drop_last() =~= nothing);
    assert(seq![one].last() == one);
    assert(components(seq![dot]) =~= seq![one]);
    assert(seq![slash, dot].drop_last() =~= seq![slash]);
    assert(seq![slash, dot].last() == dot);
    assert(seq![none, none].drop_last().push(none.push(dot)) =~= seq![none, one]);
    assert(seq![none, none].last() == none);
    assert(segments(seq![slash, dot]) =~= seq![none, one]);
    assert(seq![none, one].drop_last() =~= seq![none]);
    assert(seq![none, one].last() == one);
    assert(components(seq![slash, dot]) =~= seq![seq![T::slash()]]);
}

/// One path lies within another exactly where its components are those of the other one,
/// followed by more of them or by none.
pub proof fn law_within_means_more_components<T: PathUnit>(path: Seq<T>, base: Seq<T>)
    ensures
        within(path, base) <==> exists|more: Seq<Seq<T>>|
            components(path) == #[trigger] (components(base) + more),
{
    let p = components(path);
    let b = components(base);
    if within(path, base) {
        assert(b =~= p.subrange(0, b.len() as int));
        assert(p =~= b + p.skip(b.len() as int));
    }
    if exists|more: Seq<Seq<T>>| p == #[trigger] (b + more) {
        let more = choose|more: Seq<Seq<T>>| p == #[trigger] (b + more);
        assert(b =~= p.subrange(0, b.len() as int));
    }
}

/// A path that begins with a slash is what it is wherever it is seen from; any other one is
/// what it is behind the directory, with one slash in between at least, and none added
/// where there is one.
pub proof fn law_resolved_goes_behind_the_directory<T: PathUnit>(base: Seq<T>, path: Seq<T>)
    requires
        T::slash().separates(),
    ensures
        path.len() > 0 && path[0].separates() ==> resolved(base, path) == path,
        !(path.len() > 0 && path[0].separates()) ==> {
            &&& base.is_prefix_of(resolved(base, path))
            &&& path.is_suffix_of(resolved(base, path))
            &&& base.len() > 0 ==> resolved(base, path)[resolved(base, path).len() - path.len()
                - 1].separates()
            &&& resolved(base, path).len() == base.len() + path.len() + (if base.len() > 0
                && !base.last().separates() {
                1int
            } else {
                0int
            })
        },
{
    let r = resolved(base, path);
    if !(path.len() > 0 && path[0].separates()) {
        assert(base =~= r.subrange(0, base.len() as int));
        assert(path =~= r.subrange(r.len() - path.len(), r.len() as int));
    }
}

/// A path goes down step by step exactly where it has no slash in front and none of its
/// segments is two dots.
pub proof fn law_wandering_paths<T: PathUnit>(path: Seq<T>)
    ensures
        !wanders(path) <==> !(path.len() > 0 && path[0].separates()) && forall|i: int|
            0 <= i < segments(path).len() ==> !((#[trigger] segments(path)[i]).len() == 2
                && segments(path)[i][0].is_dot() && segments(path)[i][1].is_dot()),
{
    if !wanders(path) {
        assert forall|i: int| 0 <= i < segments(path).len() implies !((
        #[trigger] segments(path)[i]).len() == 2 && segments(path)[i][0].is_dot()
            && segments(path)[i][1].is_dot()) by {
            assert(!double_dot(segments(path)[i]));
        }
    }
}

/// A name is plain exactly where it is not empty, holds no slash, and is neither one dot
/// nor two.
pub proof fn law_plain_names(name: Seq<char>)
    ensures
        plain_name(name) <==> name.len() > 0 && name != seq!['.'] && name != seq!['.', '.']
            && !name.contains('/'),
{
    if name.len() == 1 && name[0] == '.' {
        assert(name =~= seq!['.']);
    }
    if name.len() == 2 && name[0] == '.' && name[1] == '.' {
        assert(name =~= seq!['.', '.']);
    }
    if name.contains('/') {
        let i = choose|i: int| 0 <= i < name.len() && name[i] == '/';
        assert(name[i].separates());
    }
    if !plain_name(name) && name.len() > 0 && !single_dot(name) && !double_dot(name) {
        let i = choose|i: int| 0 <= i < name.len() && (#[trigger] name[i]).separates();
        assert(name.contains(name[i]));
    }
}

} // verus!

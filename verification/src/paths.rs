//! Unix path handling on plain strings: splitting into components, joining,
//! lexical normalization and component-wise prefix tests, as `std::path`
//! defines them for `/`-separated paths.
use vstd::prelude::*;
use vstd::string::*;
use crate::text::{push_char, str_eq};

verus! {

/// A path component, as `std::path::Component` reports it on Unix.
pub enum PathPart {
    Root,
    Current,
    Parent,
    Normal(Seq<char>),
}

#[derive(Debug, Clone, PartialEq, Eq)]
pub enum PathComponent {
    RootDir,
    CurDir,
    ParentDir,
    Normal(String),
}

impl View for PathComponent {
    type V = PathPart;

    open spec fn view(&self) -> PathPart {
        match self {
            PathComponent::RootDir => PathPart::Root,
            PathComponent::CurDir => PathPart::Current,
            PathComponent::ParentDir => PathPart::Parent,
            PathComponent::Normal(s) => PathPart::Normal(s@),
        }
    }
}

pub open spec fn parts_view(cs: Seq<PathComponent>) -> Seq<PathPart> {
    cs.map_values(|c: PathComponent| c@)
}

/// The pieces of `s` between `/` separators, empty pieces included.
pub open spec fn segments(s: Seq<char>) -> Seq<Seq<char>>
    decreases s.len(),
{
    if s.len() == 0 {
        seq![Seq::empty()]
    } else if s.last() == '/' {
        segments(s.drop_last()).push(Seq::empty())
    } else {
        let segs = segments(s.drop_last());
        segs.update(segs.len() - 1, segs.last().push(s.last()))
    }
}

pub proof fn lemma_segments_nonempty(s: Seq<char>)
    ensures
        segments(s).len() >= 1,
    decreases s.len(),
{
    if s.len() > 0 {
        lemma_segments_nonempty(s.drop_last());
    }
}

pub open spec fn is_rooted(s: Seq<char>) -> bool {
    s.len() > 0 && s[0] == '/'
}

/// The component that one segment contributes: empty and `.` segments
/// contribute nothing.
pub open spec fn segment_part(seg: Seq<char>) -> Option<PathPart> {
    if seg.len() == 0 || seg == seq!['.'] {
        None
    } else if seg == seq!['.', '.'] {
        Some(PathPart::Parent)
    } else {
        Some(PathPart::Normal(seg))
    }
}

pub open spec fn body_parts(segs: Seq<Seq<char>>) -> Seq<PathPart>
    decreases segs.len(),
{
    if segs.len() == 0 {
        Seq::empty()
    } else {
        let rest = body_parts(segs.drop_last());
        match segment_part(segs.last()) {
            Some(p) => rest.push(p),
            None => rest,
        }
    }
}

/// The components of `s`: a root for a leading `/`, a current-directory
/// component for a leading `.` segment of a relative path, then the parent
/// and normal components of the remaining segments.
pub open spec fn path_components(s: Seq<char>) -> Seq<PathPart> {
    let root = if is_rooted(s) { seq![PathPart::Root] } else { Seq::empty() };
    let cur = if !is_rooted(s) && segments(s)[0] == seq!['.'] { seq![PathPart::Current] } else { Seq::empty() };
    root + cur + body_parts(segments(s))
}

/// `base.join(p)`: an absolute `p` replaces `base`; otherwise `p` is added
/// after a separator, unless `base` is empty or already ends in one.
pub open spec fn join(base: Seq<char>, p: Seq<char>) -> Seq<char> {
    if is_rooted(p) {
        p
    } else if base.len() == 0 || base.last() == '/' {
        base + p
    } else {
        base + seq!['/'] + p
    }
}

/// The state that lexical normalization builds: whether the path is rooted,
/// and the stack of normal components.
pub open spec fn normalized_state(ps: Seq<PathPart>) -> (bool, Seq<Seq<char>>)
    decreases ps.len(),
{
    if ps.len() == 0 {
        (false, Seq::empty())
    } else {
        let (rooted, stack) = normalized_state(ps.drop_last());
        match ps.last() {
            PathPart::Root => (true, Seq::empty()),
            PathPart::Current => (rooted, stack),
            PathPart::Parent => (rooted, if stack.len() > 0 { stack.drop_last() } else { stack }),
            PathPart::Normal(x) => (rooted, stack.push(x)),
        }
    }
}

/// Normal components joined by `/`.
pub open spec fn join_slash(stack: Seq<Seq<char>>) -> Seq<char>
    decreases stack.len(),
{
    if stack.len() == 0 {
        Seq::empty()
    } else if stack.len() == 1 {
        stack[0]
    } else {
        join_slash(stack.drop_last()) + seq!['/'] + stack.last()
    }
}

pub open spec fn render(rooted: bool, stack: Seq<Seq<char>>) -> Seq<char> {
    if rooted {
        seq!['/'] + join_slash(stack)
    } else {
        join_slash(stack)
    }
}

/// Lexical normalization: `.` is dropped and `..` removes the component
/// before it (nothing at the top), without looking at the file system.
pub open spec fn normalize(s: Seq<char>) -> Seq<char> {
    let (rooted, stack) = normalized_state(path_components(s));
    render(rooted, stack)
}

/// `Path::starts_with`: the components of `base` begin those of `path`.
pub open spec fn path_starts_with(path: Seq<char>, base: Seq<char>) -> bool {
    path_components(base).is_prefix_of(path_components(path))
}

/// `Path::file_name`: the last component when it is a normal one.
pub open spec fn file_name(s: Seq<char>) -> Option<Seq<char>> {
    let cs = path_components(s);
    if cs.len() > 0 && cs.last() is Normal {
        Some(cs.last()->Normal_0)
    } else {
        None
    }
}

fn segment_component(seg: &String) -> (r: Option<PathComponent>)
    ensures
        match r {
            Some(c) => segment_part(seg@) == Some(c@),
            None => segment_part(seg@) is None,
        },
{
    let n = seg.as_str().unicode_len();
    if n == 0 {
        return None;
    }
    let first = seg.as_str().get_char(0);
    if n == 1 && first == '.' {
        assert(seg@ =~= seq!['.']);
        return None;
    }
    if n == 2 && first == '.' && seg.as_str().get_char(1) == '.' {
        assert(seg@ =~= seq!['.', '.']);
        return Some(PathComponent::ParentDir);
    }
    assert(seg@ != seq!['.']) by {
        if seg@ == seq!['.'] {
            assert(seg@.len() == 1 && seg@[0] == '.');
        }
    }
    assert(seg@ != seq!['.', '.']) by {
        if seg@ == seq!['.', '.'] {
            assert(seg@.len() == 2 && seg@[0] == '.' && seg@[1] == '.');
        }
    }
    Some(PathComponent::Normal(seg.clone()))
}

fn is_dot(seg: &String) -> (b: bool)
    ensures
        b == (seg@ == seq!['.']),
{
    let n = seg.as_str().unicode_len();
    if n == 1 && seg.as_str().get_char(0) == '.' {
        assert(seg@ =~= seq!['.']);
        true
    } else {
        assert(seg@ != seq!['.']) by {
            if seg@ == seq!['.'] {
                assert(seg@.len() == 1 && seg@[0] == '.');
            }
        }
        false
    }
}

/// `Path::components` for a `/`-separated path.
pub fn components(s: &str) -> (r: Vec<PathComponent>)
    ensures
        parts_view(r@) == path_components(s@),
{
    let n = s.unicode_len();
    let rooted = n > 0 && s.get_char(0) == '/';
    let mut body: Vec<PathComponent> = Vec::new();
    let mut cur = String::new();
    let mut leading_cur = false;
    let mut first = true;
    let ghost mut done: Seq<Seq<char>> = Seq::empty();
    let mut i: usize = 0;
    proof {
        assert(s@.take(0) =~= Seq::<char>::empty());
        assert(segments(s@.take(0)) =~= done.push(cur@));
    }
    while i < n
        invariant
            n == s@.len(),
            i <= n,
            rooted == is_rooted(s@),
            segments(s@.take(i as int)) == done.push(cur@),
            parts_view(body@) == body_parts(done),
            first == (done.len() == 0),
            done.len() > 0 ==> leading_cur == (!rooted && done[0] == seq!['.']),
            done.len() == 0 ==> !leading_cur,
        decreases n - i,
    {
        let c = s.get_char(i);
        proof {
            assert(s@.take(i + 1).drop_last() =~= s@.take(i as int));
            assert(s@.take(i + 1).last() == c);
        }
        if c == '/' {
            if first && !rooted {
                leading_cur = is_dot(&cur);
            }
            let part = segment_component(&cur);
            proof {
                let nd = done.push(cur@);
                assert(nd.drop_last() =~= done);
                assert(nd.last() == cur@);
            }
            match part {
                Some(p) => {
                    body.push(p);
                    proof {
                        assert(parts_view(body@) =~= body_parts(done.push(cur@)));
                    }
                },
                None => {
                    proof {
                        assert(parts_view(body@) =~= body_parts(done.push(cur@)));
                    }
                },
            }
            proof {
                if done.len() > 0 {
                    assert(done.push(cur@)[0] == done[0]);
                } else {
                    assert(done.push(cur@)[0] == cur@);
                }
                done = done.push(cur@);
            }
            cur = String::new();
            first = false;
            proof {
                assert(segments(s@.take(i + 1)) =~= done.push(cur@));
            }
        } else {
            let ghost old_cur = cur@;
            push_char(&mut cur, c);
            proof {
                assert(segments(s@.take(i + 1)) =~= done.push(cur@));
            }
        }
        i = i + 1;
    }
    proof {
        assert(s@.take(n as int) =~= s@);
    }
    if first && !rooted {
        leading_cur = is_dot(&cur);
    }
    let part = segment_component(&cur);
    let ghost segs = done.push(cur@);
    proof {
        assert(segs.drop_last() =~= done);
        assert(segs.last() == cur@);
        if done.len() > 0 {
            assert(segs[0] == done[0]);
        } else {
            assert(segs[0] == cur@);
        }
    }
    match part {
        Some(p) => {
            body.push(p);
        },
        None => {},
    }
    proof {
        assert(parts_view(body@) =~= body_parts(segs));
    }
    let mut r: Vec<PathComponent> = Vec::new();
    if rooted {
        r.push(PathComponent::RootDir);
    }
    if leading_cur {
        r.push(PathComponent::CurDir);
    }
    let ghost prefix = parts_view(r@);
    r.append(&mut body);
    proof {
        assert(parts_view(r@) =~= path_components(s@));
    }
    r
}


/// Joins normal components with `/`, after a leading `/` for a rooted path.
pub fn render_path(rooted: bool, stack: &Vec<String>) -> (r: String)
    ensures
        r@ == render(rooted, stack.deep_view()),
{
    let mut out = String::new();
    if rooted {
        push_char(&mut out, '/');
    }
    let ghost head = out@;
    let ghost sv = stack.deep_view();
    let n = stack.len();
    let mut k: usize = 0;
    proof {
        assert(sv.take(0) =~= Seq::<Seq<char>>::empty());
        assert(out@ =~= head + join_slash(sv.take(0)));
    }
    while k < n
        invariant
            n == stack@.len(),
            sv == stack.deep_view(),
            sv.len() == n,
            k <= n,
            head == (if rooted { seq!['/'] } else { Seq::<char>::empty() }),
            out@ == head + join_slash(sv.take(k as int)),
        decreases n - k,
    {
        proof {
            assert(sv.take(k + 1).drop_last() =~= sv.take(k as int));
            assert(sv.take(k + 1).last() == stack@[k as int]@);
        }
        if k > 0 {
            push_char(&mut out, '/');
        } else {
            assert(sv.take(1) =~= seq![stack@[0]@]);
        }
        out.append(stack[k].as_str());
        proof {
            assert(out@ =~= head + join_slash(sv.take(k + 1)));
        }
        k = k + 1;
    }
    proof {
        assert(sv.take(n as int) =~= sv);
    }
    out
}

/// Runs lexical normalization over components: whether the result is rooted,
/// and its normal components.
pub fn normalize_parts(comps: &Vec<PathComponent>) -> (r: (bool, Vec<String>))
    ensures
        (r.0, r.1.deep_view()) == normalized_state(parts_view(comps@)),
{
    let ghost ps = parts_view(comps@);
    let mut rooted = false;
    let mut stack: Vec<String> = Vec::new();
    let n = comps.len();
    let mut i: usize = 0;
    proof {
        assert(ps.take(0) =~= Seq::<PathPart>::empty());
        assert(stack.deep_view() =~= Seq::<Seq<char>>::empty());
    }
    while i < n
        invariant
            n == comps@.len(),
            ps == parts_view(comps@),
            i <= n,
            (rooted, stack.deep_view()) == normalized_state(ps.take(i as int)),
        decreases n - i,
    {
        proof {
            assert(ps.take(i + 1).drop_last() =~= ps.take(i as int));
            assert(ps.take(i + 1).last() == comps@[i as int]@);
        }
        let ghost before = stack.deep_view();
        match &comps[i] {
            PathComponent::RootDir => {
                rooted = true;
                stack = Vec::new();
                proof {
                    assert(stack.deep_view() =~= Seq::<Seq<char>>::empty());
                }
            },
            PathComponent::CurDir => {},
            PathComponent::ParentDir => {
                if stack.len() > 0 {
                    stack.pop();
                    proof {
                        assert(stack.deep_view() =~= before.drop_last());
                    }
                }
            },
            PathComponent::Normal(part) => {
                stack.push(part.clone());
                proof {
                    assert(stack.deep_view() =~= before.push(part@));
                }
            },
        }
        i = i + 1;
    }
    proof {
        assert(ps.take(n as int) =~= ps);
    }
    (rooted, stack)
}

/// Lexical normalization of a path (see `normalize`).
pub fn normalize_path(s: &str) -> (r: String)
    ensures
        r@ == normalize(s@),
{
    let comps = components(s);
    let (rooted, stack) = normalize_parts(&comps);
    render_path(rooted, &stack)
}

/// `base.join(p)` (see `join`).
pub fn join_path(base: &str, p: &str) -> (r: String)
    ensures
        r@ == join(base@, p@),
{
    if p.unicode_len() > 0 && p.get_char(0) == '/' {
        return p.to_owned();
    }
    let n = base.unicode_len();
    let mut r = base.to_owned();
    if !(n == 0 || base.get_char(n - 1) == '/') {
        push_char(&mut r, '/');
    }
    r.append(p);
    r
}

/// A copy of a component.
pub fn copy_component(c: &PathComponent) -> (r: PathComponent)
    ensures
        r@ == c@,
{
    match c {
        PathComponent::RootDir => PathComponent::RootDir,
        PathComponent::CurDir => PathComponent::CurDir,
        PathComponent::ParentDir => PathComponent::ParentDir,
        PathComponent::Normal(x) => PathComponent::Normal(x.clone()),
    }
}

fn component_eq(a: &PathComponent, b: &PathComponent) -> (r: bool)
    ensures
        r == (a@ == b@),
{
    match (a, b) {
        (PathComponent::RootDir, PathComponent::RootDir) => true,
        (PathComponent::CurDir, PathComponent::CurDir) => true,
        (PathComponent::ParentDir, PathComponent::ParentDir) => true,
        (PathComponent::Normal(x), PathComponent::Normal(y)) => str_eq(x.as_str(), y.as_str()),
        _ => false,
    }
}

/// `Path::starts_with` (see `path_starts_with`).
pub fn path_starts_with_exec(path: &str, base: &str) -> (r: bool)
    ensures
        r == path_starts_with(path@, base@),
{
    let pc = components(path);
    let bc = components(base);
    let ghost pv = parts_view(pc@);
    let ghost bv = parts_view(bc@);
    if bc.len() > pc.len() {
        assert(!bv.is_prefix_of(pv));
        return false;
    }
    let n = bc.len();
    let mut i: usize = 0;
    while i < n
        invariant
            n == bc@.len(),
            n <= pc@.len(),
            pv == parts_view(pc@),
            bv == parts_view(bc@),
            pv == path_components(path@),
            bv == path_components(base@),
            i <= n,
            forall|k: int| 0 <= k < i ==> bv[k] == pv[k],
        decreases n - i,
    {
        if !component_eq(&bc[i], &pc[i]) {
            assert(bv[i as int] == bc@[i as int]@);
            assert(pv[i as int] == pc@[i as int]@);
            assert(pv.subrange(0, bv.len() as int)[i as int] == pv[i as int]);
            assert(!bv.is_prefix_of(pv));
            return false;
        }
        i = i + 1;
    }
    assert(bv =~= pv.subrange(0, bv.len() as int));
    true
}

/// `Path::file_name` (see `file_name`).
pub fn file_name_of(s: &str) -> (r: Option<String>)
    ensures
        r.deep_view() == file_name(s@),
{
    let comps = components(s);
    let n = comps.len();
    if n == 0 {
        return None;
    }
    match &comps[n - 1] {
        PathComponent::Normal(x) => Some(x.clone()),
        _ => None,
    }
}

/// The text of one component.
pub open spec fn part_text(p: PathPart) -> Seq<char> {
    match p {
        PathPart::Root => Seq::empty(),
        PathPart::Current => seq!['.'],
        PathPart::Parent => seq!['.', '.'],
        PathPart::Normal(x) => x,
    }
}

/// Components written back as a path: a leading `/` for a root, then the
/// other components joined by `/`.
pub open spec fn render_parts(ps: Seq<PathPart>) -> Seq<char>
    decreases ps.len(),
{
    if ps.len() == 0 {
        Seq::empty()
    } else if ps.len() == 1 {
        match ps[0] {
            PathPart::Root => seq!['/'],
            p => part_text(p),
        }
    } else {
        let head = render_parts(ps.drop_last());
        if head == seq!['/'] {
            head + part_text(ps.last())
        } else {
            head + seq!['/'] + part_text(ps.last())
        }
    }
}

/// `Path::parent`, as components: the path without its last component,
/// when that component is not the root.
pub open spec fn parent_parts_of(s: Seq<char>) -> Option<Seq<PathPart>> {
    let cs = path_components(s);
    if cs.len() > 0 && !(cs.last() is Root) {
        Some(cs.drop_last())
    } else {
        None
    }
}

fn part_text_of(c: &PathComponent) -> (r: String)
    ensures
        r@ == part_text(c@),
{
    match c {
        PathComponent::RootDir => String::new(),
        PathComponent::CurDir => {
            let r = ".".to_owned();
            proof {
                reveal_strlit(".");
            }
            assert(r@ =~= seq!['.']);
            r
        },
        PathComponent::ParentDir => {
            let r = "..".to_owned();
            proof {
                reveal_strlit("..");
            }
            assert(r@ =~= seq!['.', '.']);
            r
        },
        PathComponent::Normal(x) => x.clone(),
    }
}

/// Writes components back as a path (see `render_parts`).
pub fn render_components(comps: &Vec<PathComponent>, count: usize) -> (r: String)
    requires
        count <= comps@.len(),
    ensures
        r@ == render_parts(parts_view(comps@).take(count as int)),
{
    let mut out = String::new();
    let mut k: usize = 0;
    proof {
        assert(parts_view(comps@).take(0) =~= Seq::<PathPart>::empty());
    }
    while k < count
        invariant
            count <= comps@.len(),
            k <= count,
            out@ == render_parts(parts_view(comps@).take(k as int)),
        decreases count - k,
    {
        let ghost ps = parts_view(comps@).take(k + 1);
        proof {
            assert(ps.drop_last() =~= parts_view(comps@).take(k as int));
            assert(ps.last() == comps@[k as int]@);
        }
        if k == 0 {
            assert(ps.len() == 1);
            match &comps[0] {
                PathComponent::RootDir => {
                    push_char(&mut out, '/');
                    assert(out@ =~= seq!['/']);
                },
                c => {
                    out = part_text_of(c);
                },
            }
        } else {
            let slash_only = out.as_str().unicode_len() == 1 && out.as_str().get_char(0) == '/';
            if slash_only {
                assert(out@ =~= seq!['/']);
            } else {
                assert(out@ != seq!['/']) by {
                    if out@ == seq!['/'] {
                        assert(out@.len() == 1 && out@[0] == '/');
                    }
                }
                push_char(&mut out, '/');
            }
            let t = part_text_of(&comps[k]);
            out.append(t.as_str());
        }
        proof {
            assert(out@ =~= render_parts(ps));
        }
        k = k + 1;
    }
    out
}

/// A name that is one normal component: non-empty, without `/`, and
/// neither `.` nor `..`.
pub open spec fn simple_name(seg: Seq<char>) -> bool {
    &&& seg.len() > 0
    &&& !seg.contains('/')
    &&& seg != seq!['.']
    &&& seg != seq!['.', '.']
}

proof fn lemma_segments_append(t: Seq<char>, seg: Seq<char>)
    requires
        !seg.contains('/'),
    ensures
        segments(t + seg) == segments(t).drop_last().push(segments(t).last() + seg),
    decreases seg.len(),
{
    lemma_segments_nonempty(t);
    if seg.len() == 0 {
        assert(t + seg =~= t);
        assert(segments(t).last() + seg =~= segments(t).last());
        assert(segments(t).drop_last().push(segments(t).last()) =~= segments(t));
    } else {
        let s2 = seg.drop_last();
        let c = seg.last();
        assert(!s2.contains('/')) by {
            if s2.contains('/') {
                let i = choose|i: int| 0 <= i < s2.len() && s2[i] == '/';
                assert(seg[i] == '/');
            }
        }
        assert(c != '/') by {
            assert(seg[seg.len() - 1] == c);
        }
        lemma_segments_append(t, s2);
        assert((t + seg).drop_last() =~= t + s2);
        assert((t + seg).last() == c);
        let prev = segments(t + s2);
        assert(segments(t + seg) == prev.update(prev.len() - 1, prev.last().push(c)));
        assert(prev.last() == segments(t).last() + s2);
        assert((segments(t).last() + s2).push(c) =~= segments(t).last() + seg);
        assert(segments(t).last() + s2 + seq![c] =~= segments(t).last() + seg);
        assert(segments(t + seg) =~= segments(t).drop_last().push(segments(t).last() + seg));
    }
}

proof fn lemma_body_parts_push_empty(segs: Seq<Seq<char>>)
    ensures
        body_parts(segs.push(Seq::empty())) == body_parts(segs),
{
    assert(segs.push(Seq::empty()).drop_last() =~= segs);
}

/// Joining a simple name onto a path adds exactly one normal component.
pub proof fn lemma_join_adds_component(base: Seq<char>, seg: Seq<char>)
    requires
        simple_name(seg),
    ensures
        path_components(join(base, seg)) == path_components(base).push(PathPart::Normal(seg)),
{
    let j = join(base, seg);
    let sb = segments(base);
    lemma_segments_nonempty(base);
    assert(!is_rooted(seg)) by {
        if is_rooted(seg) {
            assert(seg.contains('/'));
        }
    }
    assert(segment_part(seg) == Some(PathPart::Normal(seg)));
    if base.len() == 0 || base.last() == '/' {
        assert(j == base + seg);
        lemma_segments_append(base, seg);
        let sj = segments(j);
        if base.len() == 0 {
            assert(sb =~= seq![Seq::<char>::empty()]);
            assert(sj =~= seq![seg]);
            assert(sj.drop_last() =~= Seq::<Seq<char>>::empty());
            assert(body_parts(sj.drop_last()) =~= Seq::<PathPart>::empty());
            assert(sj.last() == seg);
            assert(body_parts(sj) =~= seq![PathPart::Normal(seg)]);
            assert(sb.drop_last() =~= Seq::<Seq<char>>::empty());
            assert(body_parts(sb.drop_last()) =~= Seq::<PathPart>::empty());
            assert(segment_part(sb.last()) is None);
            assert(body_parts(sb) =~= Seq::<PathPart>::empty());
            assert(sj[0] == seg);
            assert(base + seg =~= seg);
            assert(path_components(j) =~= path_components(base).push(PathPart::Normal(seg)));
        } else {
            assert(base =~= base.drop_last().push('/'));
            assert(sb == segments(base.drop_last()).push(Seq::empty()));
            assert(sb.last() + seg =~= seg);
            assert(sj == sb.drop_last().push(seg));
            assert(sb.drop_last() =~= segments(base.drop_last()));
            lemma_body_parts_push_empty(segments(base.drop_last()));
            assert(sj.drop_last() =~= sb.drop_last());
            assert(body_parts(sj) == body_parts(sb).push(PathPart::Normal(seg)));
            lemma_segments_nonempty(base.drop_last());
            assert(sj[0] == sb[0]);
            assert(is_rooted(j) == is_rooted(base)) by {
                assert(j[0] == base[0]);
            }
            assert(path_components(j) =~= path_components(base).push(PathPart::Normal(seg)));
        }
    } else {
        let t = base + seq!['/'];
        assert(j == t + seg);
        assert(t.drop_last() =~= base);
        assert(segments(t) == sb.push(Seq::empty()));
        lemma_segments_append(t, seg);
        let sj = segments(j);
        assert(Seq::<char>::empty() + seg =~= seg);
        assert(sb.push(Seq::empty()).drop_last() =~= sb);
        assert(sj == sb.push(seg));
        assert(sj.drop_last() =~= sb);
        assert(body_parts(sj) == body_parts(sb).push(PathPart::Normal(seg)));
        assert(sj[0] == sb[0]);
        assert(is_rooted(j) == is_rooted(base)) by {
            assert(j[0] == base[0]);
        }
        assert(path_components(j) =~= path_components(base).push(PathPart::Normal(seg)));
    }
}

/// A path joined with a simple name lies within the path and is named by it.
pub proof fn lemma_join_within(base: Seq<char>, seg: Seq<char>)
    requires
        simple_name(seg),
    ensures
        path_starts_with(join(base, seg), base),
        file_name(join(base, seg)) == Some(seg),
{
    lemma_join_adds_component(base, seg);
    let b = path_components(base);
    assert(b =~= b.push(PathPart::Normal(seg)).subrange(0, b.len() as int));
}

/// The components of a normalized path: the root, if any, then normal ones.
pub open spec fn normalized_parts(rooted: bool, stack: Seq<Seq<char>>) -> Seq<PathPart> {
    (if rooted { seq![PathPart::Root] } else { Seq::empty() }) + stack.map_values(
        |x: Seq<char>| PathPart::Normal(x),
    )
}

proof fn lemma_segments_no_slash(s: Seq<char>)
    ensures
        forall|k: int| 0 <= k < segments(s).len() ==> !(#[trigger] segments(s)[k]).contains('/'),
    decreases s.len(),
{
    lemma_segments_nonempty(s);
    if s.len() > 0 {
        let prev = segments(s.drop_last());
        lemma_segments_no_slash(s.drop_last());
        lemma_segments_nonempty(s.drop_last());
        if s.last() == '/' {
            assert forall|k: int| 0 <= k < segments(s).len() implies !(#[trigger] segments(s)[k]).contains('/') by {
                if k < prev.len() {
                    assert(segments(s)[k] == prev[k]);
                } else {
                    assert(segments(s)[k] =~= Seq::<char>::empty());
                }
            }
        } else {
            assert forall|k: int| 0 <= k < segments(s).len() implies !(#[trigger] segments(s)[k]).contains('/') by {
                if k < prev.len() - 1 {
                    assert(segments(s)[k] == prev[k]);
                } else {
                    let last = prev.last();
                    assert(segments(s)[k] == last.push(s.last()));
                    if last.push(s.last()).contains('/') {
                        let j = choose|j: int| 0 <= j < last.push(s.last()).len() && last.push(s.last())[j] == '/';
                        if j < last.len() {
                            assert(prev[prev.len() - 1] == last);
                            assert(last[j] == '/');
                            assert(last.contains('/'));
                        }
                    }
                }
            }
        }
    }
}

proof fn lemma_body_parts_simple(segs: Seq<Seq<char>>)
    requires
        forall|k: int| 0 <= k < segs.len() ==> !(#[trigger] segs[k]).contains('/'),
    ensures
        forall|k: int|
            0 <= k < body_parts(segs).len() ==> (#[trigger] body_parts(segs)[k] matches PathPart::Normal(x)
                ==> simple_name(x)),
    decreases segs.len(),
{
    if segs.len() > 0 {
        let rest = segs.drop_last();
        assert forall|k: int| 0 <= k < rest.len() implies !(#[trigger] rest[k]).contains('/') by {
            assert(rest[k] == segs[k]);
        }
        lemma_body_parts_simple(rest);
        assert(!segs[segs.len() - 1].contains('/'));
    }
}

/// Every normal component of a path is one simple name.
pub proof fn lemma_components_simple(s: Seq<char>)
    ensures
        forall|k: int|
            0 <= k < path_components(s).len() ==> (#[trigger] path_components(s)[k] matches PathPart::Normal(x)
                ==> simple_name(x)),
{
    lemma_segments_no_slash(s);
    lemma_body_parts_simple(segments(s));
    let root = if is_rooted(s) { seq![PathPart::Root] } else { Seq::<PathPart>::empty() };
    let cur = if !is_rooted(s) && segments(s)[0] == seq!['.'] { seq![PathPart::Current] } else { Seq::<PathPart>::empty() };
    let b = body_parts(segments(s));
    assert forall|k: int|
        0 <= k < path_components(s).len() implies (#[trigger] path_components(s)[k] matches PathPart::Normal(x)
            ==> simple_name(x)) by {
        if k >= root.len() + cur.len() {
            assert(path_components(s)[k] == b[k - root.len() - cur.len()]);
        }
    }
}

proof fn lemma_stack_simple(ps: Seq<PathPart>)
    requires
        forall|k: int| 0 <= k < ps.len() ==> (#[trigger] ps[k] matches PathPart::Normal(x) ==> simple_name(x)),
    ensures
        forall|k: int| 0 <= k < normalized_state(ps).1.len() ==> simple_name(#[trigger] normalized_state(ps).1[k]),
    decreases ps.len(),
{
    if ps.len() > 0 {
        let rest = ps.drop_last();
        assert forall|k: int| 0 <= k < rest.len() implies (#[trigger] rest[k] matches PathPart::Normal(x) ==> simple_name(x)) by {
            assert(rest[k] == ps[k]);
        }
        lemma_stack_simple(rest);
        let st = normalized_state(rest).1;
        assert(ps[ps.len() - 1] == ps.last());
        match ps.last() {
            PathPart::Parent => {
                if st.len() > 0 {
                    assert forall|k: int| 0 <= k < st.drop_last().len() implies simple_name(#[trigger] st.drop_last()[k]) by {
                        assert(st.drop_last()[k] == st[k]);
                    }
                }
            },
            PathPart::Normal(x) => {
                assert forall|k: int| 0 <= k < st.push(x).len() implies simple_name(#[trigger] st.push(x)[k]) by {
                    if k < st.len() {
                        assert(st.push(x)[k] == st[k]);
                    }
                }
            },
            _ => {},
        }
    }
}

proof fn lemma_join_slash_last(st: Seq<Seq<char>>)
    requires
        st.len() > 0,
        forall|k: int| 0 <= k < st.len() ==> simple_name(#[trigger] st[k]),
    ensures
        join_slash(st).len() > 0,
        join_slash(st).last() == st.last().last(),
    decreases st.len(),
{
    assert(simple_name(st[st.len() - 1]));
    if st.len() == 1 {
        assert(simple_name(st[0]));
    }
}

proof fn lemma_render_push(rooted: bool, st: Seq<Seq<char>>, x: Seq<char>)
    requires
        simple_name(x),
        forall|k: int| 0 <= k < st.len() ==> simple_name(#[trigger] st[k]),
    ensures
        render(rooted, st.push(x)) == join(render(rooted, st), x),
{
    assert(!is_rooted(x)) by {
        if is_rooted(x) {
            assert(x.contains('/'));
        }
    }
    assert(st.push(x).drop_last() =~= st);
    if st.len() == 0 {
        assert(join_slash(st.push(x)) == x);
        if rooted {
            assert(render(rooted, st) =~= seq!['/']);
        } else {
            assert(render(rooted, st) =~= Seq::<char>::empty());
            assert(Seq::<char>::empty() + x =~= x);
        }
    } else {
        lemma_join_slash_last(st);
        let last = st.last();
        assert(simple_name(st[st.len() - 1]));
        assert(last.last() != '/') by {
            assert(last[last.len() - 1] == last.last());
            if last.last() == '/' {
                assert(last.contains('/'));
            }
        }
        assert(render(rooted, st).last() == join_slash(st).last());
        assert(join_slash(st.push(x)) == join_slash(st) + seq!['/'] + x);
        if rooted {
            assert(render(rooted, st.push(x)) =~= render(rooted, st) + seq!['/'] + x);
        }
    }
}

/// A normalized path reads back as its root, if any, and its normal parts.
proof fn lemma_render_components(rooted: bool, st: Seq<Seq<char>>)
    requires
        forall|k: int| 0 <= k < st.len() ==> simple_name(#[trigger] st[k]),
    ensures
        path_components(render(rooted, st)) == normalized_parts(rooted, st),
    decreases st.len(),
{
    if st.len() == 0 {
        let r = render(rooted, st);
        if rooted {
            assert(r =~= seq!['/']);
            assert(r.drop_last() =~= Seq::<char>::empty());
            assert(r.last() == '/');
            assert(segments(Seq::<char>::empty()) == seq![Seq::<char>::empty()]);
            assert(segments(r) == segments(r.drop_last()).push(Seq::<char>::empty()));
            assert(segments(r) =~= seq![Seq::<char>::empty(), Seq::<char>::empty()]);
            assert(segments(r).drop_last() =~= seq![Seq::<char>::empty()]);
            let one = segments(r).drop_last();
            assert(one.drop_last() =~= Seq::<Seq<char>>::empty());
            assert(one.last() == Seq::<char>::empty());
            assert(segment_part(Seq::<char>::empty()) is None);
            assert(body_parts(one.drop_last()) =~= Seq::<PathPart>::empty());
            assert(body_parts(one) =~= Seq::<PathPart>::empty());
            assert(segments(r).last() == Seq::<char>::empty());
            assert(body_parts(segments(r)) =~= Seq::<PathPart>::empty());
        } else {
            assert(r =~= Seq::<char>::empty());
            assert(segments(r) == seq![Seq::<char>::empty()]);
            assert(segments(r).drop_last() =~= Seq::<Seq<char>>::empty());
            assert(segments(r).last() == Seq::<char>::empty());
            assert(segment_part(Seq::<char>::empty()) is None);
            assert(body_parts(segments(r).drop_last()) =~= Seq::<PathPart>::empty());
            assert(body_parts(segments(r)) =~= Seq::<PathPart>::empty());
        }
        assert(path_components(r) =~= normalized_parts(rooted, st));
    } else {
        let rest = st.drop_last();
        assert forall|k: int| 0 <= k < rest.len() implies simple_name(#[trigger] rest[k]) by {
            assert(rest[k] == st[k]);
        }
        lemma_render_components(rooted, rest);
        assert(simple_name(st[st.len() - 1]));
        assert(rest.push(st.last()) =~= st);
        lemma_render_push(rooted, rest, st.last());
        lemma_join_adds_component(render(rooted, rest), st.last());
        assert(normalized_parts(rooted, rest).push(PathPart::Normal(st.last())) =~= normalized_parts(
            rooted,
            st,
        ));
    }
}

proof fn lemma_normalized_state_of_parts(rooted: bool, st: Seq<Seq<char>>)
    ensures
        normalized_state(normalized_parts(rooted, st)) == (rooted, st),
    decreases st.len(),
{
    if st.len() == 0 {
        if rooted {
            assert(normalized_parts(rooted, st) =~= seq![PathPart::Root]);
            assert(seq![PathPart::Root].drop_last() =~= Seq::<PathPart>::empty());
        } else {
            assert(normalized_parts(rooted, st) =~= Seq::<PathPart>::empty());
        }
        assert(st =~= Seq::<Seq<char>>::empty());
    } else {
        lemma_normalized_state_of_parts(rooted, st.drop_last());
        assert(normalized_parts(rooted, st).drop_last() =~= normalized_parts(rooted, st.drop_last()));
        assert(st.drop_last().push(st.last()) =~= st);
    }
}

/// Normalizing twice gives what normalizing once gives, and a normalized path
/// holds no `.` or `..` component: only a root, if any, then normal names.
pub proof fn lemma_normalize_idempotent(p: Seq<char>)
    ensures
        normalize(normalize(p)) == normalize(p),
        forall|k: int|
            0 <= k < path_components(normalize(p)).len() ==> !(#[trigger] path_components(normalize(p))[k] is Current)
                && !(path_components(normalize(p))[k] is Parent),
{
    let (rooted, st) = normalized_state(path_components(p));
    lemma_components_simple(p);
    lemma_stack_simple(path_components(p));
    lemma_render_components(rooted, st);
    lemma_normalized_state_of_parts(rooted, st);
    let parts = normalized_parts(rooted, st);
    assert forall|k: int| 0 <= k < parts.len() implies !(#[trigger] parts[k] is Current) && !(parts[k] is Parent) by {
        if rooted && k >= 1 {
            assert(parts[k] == PathPart::Normal(st[k - 1]));
        } else if !rooted {
            assert(parts[k] == PathPart::Normal(st[k]));
        }
    }
}

} // verus!

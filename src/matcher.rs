//! Pairing frames from the capture channel with output descriptors, through
//! three tiers of confidence: equal names, then geometry within 1, then
//! whatever is left in order.
use vstd::prelude::*;
use crate::outputs::{close_spec, geometry_close, quad, OutputDescriptor, ResolveError};

verus! {

/// What the capture channel reports of one output.
#[derive(Debug)]
pub struct FrameInfo {
    pub name: String,
    pub geometry: (i32, i32, i32, i32),
}

/// Why no mapping could be made.
#[derive(Debug, Clone, Copy, PartialEq, Eq, Structural)]
pub enum MatchError {
    /// The requested output is not among the captured frames.
    NotFound,
}

/// Matching state: the frame given to each descriptor, and which frames are taken.
pub type MatchState = (Seq<Option<usize>>, Seq<bool>);

/// The first index in `k..n` that satisfies `p`.
pub open spec fn first_from(n: int, p: spec_fn(int) -> bool, k: int) -> Option<int>
    decreases n - k,
{
    if k >= n {
        None
    } else if p(k) {
        Some(k)
    } else {
        first_from(n, p, k + 1)
    }
}

pub open spec fn first(n: int, p: spec_fn(int) -> bool) -> Option<int> {
    first_from(n, p, 0)
}

pub open spec fn opt_int(r: Option<usize>) -> Option<int> {
    match r {
        Some(j) => Some(j as int),
        None => None,
    }
}

pub proof fn lemma_first_from(n: int, p: spec_fn(int) -> bool, k: int)
    requires
        0 <= k,
    ensures
        match first_from(n, p, k) {
            Some(j) => k <= j < n && p(j) && forall|m: int| k <= m < j ==> !#[trigger] p(m),
            None => forall|m: int| k <= m < n ==> !#[trigger] p(m),
        },
    decreases n - k,
{
    if k < n && !p(k) {
        lemma_first_from(n, p, k + 1);
    }
}

pub open spec fn unused_named(fs: Seq<FrameInfo>, used: Seq<bool>, nm: Seq<char>) -> spec_fn(
    int,
) -> bool {
    |k: int| !used[k] && fs[k].name@ == nm
}

pub open spec fn unused_close(
    fs: Seq<FrameInfo>,
    used: Seq<bool>,
    g: (int, int, int, int),
) -> spec_fn(int) -> bool {
    |k: int| !used[k] && close_spec(quad(fs[k].geometry), g)
}

pub open spec fn unused(used: Seq<bool>) -> spec_fn(int) -> bool {
    |k: int| !used[k]
}

pub open spec fn frame_named(fs: Seq<FrameInfo>, sel: Seq<char>) -> spec_fn(int) -> bool {
    |k: int| fs[k].name@ == sel
}

pub open spec fn desc_named(ds: Seq<OutputDescriptor>, sel: Seq<char>) -> spec_fn(int) -> bool {
    |i: int| ds[i].name_spec() == Some(sel)
}

pub open spec fn desc_close(ds: Seq<OutputDescriptor>, t: (int, int, int, int)) -> spec_fn(
    int,
) -> bool {
    |i: int|
        match ds[i].geometry_spec() {
            Some(g) => close_spec(g, t),
            None => false,
        }
}

pub open spec fn assign(st: MatchState, i: int, j: int) -> MatchState {
    (st.0.update(i, Some(j as usize)), st.1.update(j, true))
}

/// Exact-name tier, for descriptor `i`: the first free frame of the same name.
pub open spec fn name_step(ds: Seq<OutputDescriptor>, fs: Seq<FrameInfo>, st: MatchState, i: int) -> MatchState {
    match ds[i].name_spec() {
        Some(nm) => match first(fs.len() as int, unused_named(fs, st.1, nm)) {
            Some(j) => assign(st, i, j),
            None => st,
        },
        None => st,
    }
}

/// Geometry tier, for a still unmatched descriptor `i`: the first free frame
/// whose geometry is within 1 of the descriptor's.
pub open spec fn geometry_step(
    ds: Seq<OutputDescriptor>,
    fs: Seq<FrameInfo>,
    st: MatchState,
    i: int,
) -> MatchState {
    if st.0[i] is Some {
        st
    } else {
        match ds[i].geometry_spec() {
            Some(g) => match first(fs.len() as int, unused_close(fs, st.1, g)) {
                Some(j) => assign(st, i, j),
                None => st,
            },
            None => st,
        }
    }
}

/// Last tier, for a still unmatched descriptor `i`: the first free frame.
pub open spec fn fill_step(fs: Seq<FrameInfo>, st: MatchState, i: int) -> MatchState {
    if st.0[i] is Some {
        st
    } else {
        match first(fs.len() as int, unused(st.1)) {
            Some(j) => assign(st, i, j),
            None => st,
        }
    }
}

pub open spec fn initial(ds: Seq<OutputDescriptor>, fs: Seq<FrameInfo>) -> MatchState {
    (Seq::new(ds.len(), |i: int| None), Seq::new(fs.len(), |k: int| false))
}

pub open spec fn name_pass(ds: Seq<OutputDescriptor>, fs: Seq<FrameInfo>, n: int) -> MatchState
    decreases n,
{
    if n <= 0 {
        initial(ds, fs)
    } else {
        name_step(ds, fs, name_pass(ds, fs, n - 1), n - 1)
    }
}

pub open spec fn geometry_pass(ds: Seq<OutputDescriptor>, fs: Seq<FrameInfo>, n: int) -> MatchState
    decreases n,
{
    if n <= 0 {
        name_pass(ds, fs, ds.len() as int)
    } else {
        geometry_step(ds, fs, geometry_pass(ds, fs, n - 1), n - 1)
    }
}

pub open spec fn fill_pass(ds: Seq<OutputDescriptor>, fs: Seq<FrameInfo>, n: int) -> MatchState
    decreases n,
{
    if n <= 0 {
        geometry_pass(ds, fs, ds.len() as int)
    } else {
        fill_step(fs, fill_pass(ds, fs, n - 1), n - 1)
    }
}

/// The mapping for all outputs: the three tiers in turn, each over the
/// descriptors in order, each frame given at most once.
pub open spec fn match_all(ds: Seq<OutputDescriptor>, fs: Seq<FrameInfo>) -> Seq<Option<usize>> {
    fill_pass(ds, fs, ds.len() as int).0
}

/// The mapping for one requested output name: the requested frame goes to the
/// first descriptor of that name, else to the first one whose geometry is
/// within 1 of the frame's, else to the first descriptor.
pub open spec fn match_selected(ds: Seq<OutputDescriptor>, fs: Seq<FrameInfo>, sel: Seq<char>) -> Result<
    Seq<Option<usize>>,
    MatchError,
> {
    let none = Seq::new(ds.len(), |i: int| None::<usize>);
    match first(fs.len() as int, frame_named(fs, sel)) {
        None => Err(MatchError::NotFound),
        Some(j) => match first(ds.len() as int, desc_named(ds, sel)) {
            Some(i) => Ok(none.update(i, Some(j as usize))),
            None => match first(ds.len() as int, desc_close(ds, quad(fs[j].geometry))) {
                Some(i) => Ok(none.update(i, Some(j as usize))),
                None => if ds.len() > 0 {
                    Ok(none.update(0, Some(j as usize)))
                } else {
                    Ok(none)
                },
            },
        },
    }
}

pub open spec fn match_spec(
    ds: Seq<OutputDescriptor>,
    fs: Seq<FrameInfo>,
    sel: Option<Seq<char>>,
) -> Result<Seq<Option<usize>>, MatchError> {
    match sel {
        Some(s) => match_selected(ds, fs, s),
        None => Ok(match_all(ds, fs)),
    }
}

fn find_unused_named(fs: &Vec<FrameInfo>, used: &Vec<bool>, nm: &String) -> (r: Option<usize>)
    requires
        used.len() == fs.len(),
    ensures
        opt_int(r) == first(fs@.len() as int, unused_named(fs@, used@, nm@)),
        r is Some ==> r->0 < fs.len(),
{
    let ghost p = unused_named(fs@, used@, nm@);
    let mut k: usize = 0;
    while k < fs.len()
        invariant
            k <= fs.len(),
            used.len() == fs.len(),
            p == unused_named(fs@, used@, nm@),
            first(fs@.len() as int, p) == first_from(fs@.len() as int, p, k as int),
        decreases fs.len() - k,
    {
        if !used[k] && fs[k].name == *nm {
            return Some(k);
        }
        k = k + 1;
    }
    None
}

fn find_unused_close(fs: &Vec<FrameInfo>, used: &Vec<bool>, g: (i32, i32, i32, i32)) -> (r: Option<
    usize,
>)
    requires
        used.len() == fs.len(),
    ensures
        opt_int(r) == first(fs@.len() as int, unused_close(fs@, used@, quad(g))),
        r is Some ==> r->0 < fs.len(),
{
    let ghost p = unused_close(fs@, used@, quad(g));
    let mut k: usize = 0;
    while k < fs.len()
        invariant
            k <= fs.len(),
            used.len() == fs.len(),
            p == unused_close(fs@, used@, quad(g)),
            first(fs@.len() as int, p) == first_from(fs@.len() as int, p, k as int),
        decreases fs.len() - k,
    {
        if !used[k] && geometry_close(fs[k].geometry, g) {
            return Some(k);
        }
        k = k + 1;
    }
    None
}

fn find_unused(used: &Vec<bool>) -> (r: Option<usize>)
    ensures
        opt_int(r) == first(used@.len() as int, unused(used@)),
        r is Some ==> r->0 < used.len(),
{
    let ghost p = unused(used@);
    let mut k: usize = 0;
    while k < used.len()
        invariant
            k <= used.len(),
            p == unused(used@),
            first(used@.len() as int, p) == first_from(used@.len() as int, p, k as int),
        decreases used.len() - k,
    {
        if !used[k] {
            return Some(k);
        }
        k = k + 1;
    }
    None
}

fn match_every_output(ds: &Vec<OutputDescriptor>, fs: &Vec<FrameInfo>) -> (r: Vec<Option<usize>>)
    ensures
        r@ == match_all(ds@, fs@),
{
    let mut mapping: Vec<Option<usize>> = Vec::new();
    let mut i: usize = 0;
    while i < ds.len()
        invariant
            i <= ds.len(),
            mapping@ == Seq::new(i as nat, |m: int| None::<usize>),
        decreases ds.len() - i,
    {
        mapping.push(None);
        i = i + 1;
        assert(mapping@ =~= Seq::new(i as nat, |m: int| None::<usize>));
    }
    let mut used: Vec<bool> = Vec::new();
    let mut k: usize = 0;
    while k < fs.len()
        invariant
            k <= fs.len(),
            used@ == Seq::new(k as nat, |m: int| false),
        decreases fs.len() - k,
    {
        used.push(false);
        k = k + 1;
        assert(used@ =~= Seq::new(k as nat, |m: int| false));
    }
    let ghost dsv = ds@;
    let ghost fsv = fs@;
    let mut i: usize = 0;
    while i < ds.len()
        invariant
            i <= ds.len(),
            dsv == ds@,
            fsv == fs@,
            mapping.len() == ds.len(),
            used.len() == fs.len(),
            (mapping@, used@) == name_pass(dsv, fsv, i as int),
        decreases ds.len() - i,
    {
        match &ds[i].name {
            Some(nm) => {
                match find_unused_named(fs, &used, nm) {
                    Some(j) => {
                        mapping.set(i, Some(j));
                        used.set(j, true);
                    },
                    None => {},
                }
            },
            None => {},
        }
        i = i + 1;
    }
    let mut i: usize = 0;
    while i < ds.len()
        invariant
            i <= ds.len(),
            dsv == ds@,
            fsv == fs@,
            mapping.len() == ds.len(),
            used.len() == fs.len(),
            (mapping@, used@) == geometry_pass(dsv, fsv, i as int),
        decreases ds.len() - i,
    {
        if mapping[i].is_none() {
            match ds[i].geometry() {
                Some(g) => {
                    match find_unused_close(fs, &used, g) {
                        Some(j) => {
                            mapping.set(i, Some(j));
                            used.set(j, true);
                        },
                        None => {},
                    }
                },
                None => {},
            }
        }
        i = i + 1;
    }
    let mut i: usize = 0;
    while i < ds.len()
        invariant
            i <= ds.len(),
            dsv == ds@,
            fsv == fs@,
            mapping.len() == ds.len(),
            used.len() == fs.len(),
            (mapping@, used@) == fill_pass(dsv, fsv, i as int),
        decreases ds.len() - i,
    {
        if mapping[i].is_none() {
            match find_unused(&used) {
                Some(j) => {
                    mapping.set(i, Some(j));
                    used.set(j, true);
                },
                None => {},
            }
        }
        i = i + 1;
    }
    mapping
}

/// Pairs descriptors with frames. `r[i] == Some(j)` gives frame `j` to
/// descriptor `i`. With a requested name, only that frame is placed; the
/// result is an error when no frame carries that name.
pub fn match_capture_to_outputs(
    descriptors: &Vec<OutputDescriptor>,
    frames: &Vec<FrameInfo>,
    selected: Option<&str>,
) -> (r: Result<Vec<Option<usize>>, MatchError>)
    ensures
        match r {
            Ok(m) => match_spec(
                descriptors@,
                frames@,
                match selected {
                    Some(s) => Some(s@),
                    None => None,
                },
            ) == Ok::<Seq<Option<usize>>, MatchError>(m@),
            Err(e) => match_spec(
                descriptors@,
                frames@,
                match selected {
                    Some(s) => Some(s@),
                    None => None,
                },
            ) == Err::<Seq<Option<usize>>, MatchError>(e),
        },
{
    match selected {
        None => Ok(match_every_output(descriptors, frames)),
        Some(s) => {
            let sel = String::from_str(s);
            let j = match find_frame_named(frames, &sel) {
                Some(j) => j,
                None => return Err(MatchError::NotFound),
            };
            let mut mapping = no_frames(descriptors.len());
            match find_desc_named(descriptors, &sel) {
                Some(i) => {
                    mapping.set(i, Some(j));
                    return Ok(mapping);
                },
                None => {},
            }
            match find_desc_close(descriptors, frames[j].geometry) {
                Some(i) => {
                    mapping.set(i, Some(j));
                    return Ok(mapping);
                },
                None => {},
            }
            if descriptors.len() > 0 {
                mapping.set(0, Some(j));
            }
            Ok(mapping)
        },
    }
}

fn no_frames(n: usize) -> (r: Vec<Option<usize>>)
    ensures
        r@ == Seq::new(n as nat, |m: int| None::<usize>),
{
    let mut mapping: Vec<Option<usize>> = Vec::new();
    let mut i: usize = 0;
    while i < n
        invariant
            i <= n,
            mapping@ == Seq::new(i as nat, |m: int| None::<usize>),
        decreases n - i,
    {
        mapping.push(None);
        i = i + 1;
        assert(mapping@ =~= Seq::new(i as nat, |m: int| None::<usize>));
    }
    mapping
}

fn find_frame_named(fs: &Vec<FrameInfo>, sel: &String) -> (r: Option<usize>)
    ensures
        opt_int(r) == first(fs@.len() as int, frame_named(fs@, sel@)),
        r is Some ==> r->0 < fs.len(),
{
    let ghost p = frame_named(fs@, sel@);
    let mut k: usize = 0;
    while k < fs.len()
        invariant
            k <= fs.len(),
            p == frame_named(fs@, sel@),
            first(fs@.len() as int, p) == first_from(fs@.len() as int, p, k as int),
        decreases fs.len() - k,
    {
        if fs[k].name == *sel {
            return Some(k);
        }
        k = k + 1;
    }
    None
}

fn find_desc_named(ds: &Vec<OutputDescriptor>, sel: &String) -> (r: Option<usize>)
    ensures
        opt_int(r) == first(ds@.len() as int, desc_named(ds@, sel@)),
        r is Some ==> r->0 < ds.len(),
{
    let ghost p = desc_named(ds@, sel@);
    let mut k: usize = 0;
    while k < ds.len()
        invariant
            k <= ds.len(),
            p == desc_named(ds@, sel@),
            first(ds@.len() as int, p) == first_from(ds@.len() as int, p, k as int),
        decreases ds.len() - k,
    {
        let hit = match &ds[k].name {
            Some(n) => *n == *sel,
            None => false,
        };
        if hit {
            return Some(k);
        }
        k = k + 1;
    }
    None
}

fn find_desc_close(ds: &Vec<OutputDescriptor>, t: (i32, i32, i32, i32)) -> (r: Option<usize>)
    ensures
        opt_int(r) == first(ds@.len() as int, desc_close(ds@, quad(t))),
        r is Some ==> r->0 < ds.len(),
{
    let ghost p = desc_close(ds@, quad(t));
    let mut k: usize = 0;
    while k < ds.len()
        invariant
            k <= ds.len(),
            p == desc_close(ds@, quad(t)),
            first(ds@.len() as int, p) == first_from(ds@.len() as int, p, k as int),
        decreases ds.len() - k,
    {
        let hit = match ds[k].geometry() {
            Some(g) => geometry_close(g, t),
            None => false,
        };
        if hit {
            return Some(k);
        }
        k = k + 1;
    }
    None
}

/// The index of the first descriptor named `name`.
pub fn resolve_by_name(descriptors: &Vec<OutputDescriptor>, name: &str) -> (r: Result<
    usize,
    ResolveError,
>)
    ensures
        match r {
            Ok(i) => first(descriptors@.len() as int, desc_named(descriptors@, name@)) == Some(
                i as int,
            ) && i < descriptors.len(),
            Err(e) => e == ResolveError::NotFound && first(
                descriptors@.len() as int,
                desc_named(descriptors@, name@),
            ) is None,
        },
{
    let want = String::from_str(name);
    match find_desc_named(descriptors, &want) {
        Some(i) => Ok(i),
        None => Err(ResolveError::NotFound),
    }
}

/// Matching depends on its ordered inputs alone: two runs on the same
/// descriptors, frames and requested name give the same outcome.
pub proof fn lemma_match_deterministic(
    ds: Seq<OutputDescriptor>,
    fs: Seq<FrameInfo>,
    sel: Option<Seq<char>>,
    r1: Result<Seq<Option<usize>>, MatchError>,
    r2: Result<Seq<Option<usize>>, MatchError>,
)
    requires
        r1 == match_spec(ds, fs, sel),
        r2 == match_spec(ds, fs, sel),
    ensures
        r1 == r2,
{
}

/// What holds after the exact-name tier has seen the first `n` descriptors.
pub open spec fn name_pass_facts(ds: Seq<OutputDescriptor>, fs: Seq<FrameInfo>, n: int) -> bool {
    let st = name_pass(ds, fs, n);
    &&& st.0.len() == ds.len()
    &&& st.1.len() == fs.len()
    &&& forall|i: int|
        0 <= i < ds.len() && (#[trigger] st.0[i]) is Some ==> i < n && (st.0[i]->0 as int)
            < fs.len() && st.1[st.0[i]->0 as int] && ds[i].name_spec() == Some(
            fs[st.0[i]->0 as int].name@,
        )
    &&& forall|k: int|
        0 <= k < fs.len() && #[trigger] st.1[k] ==> exists|i: int|
            0 <= i < n && #[trigger] st.0[i] == Some(k as usize)
    &&& forall|i: int, k: int|
        0 <= i < n && 0 <= k < fs.len() && (#[trigger] st.0[i]) is None && ds[i].name_spec()
            == Some(#[trigger] fs[k].name@) ==> st.1[k]
}

pub proof fn lemma_name_pass(ds: Seq<OutputDescriptor>, fs: Seq<FrameInfo>, n: int)
    requires
        0 <= n <= ds.len(),
        fs.len() <= usize::MAX,
    ensures
        name_pass_facts(ds, fs, n),
    decreases n,
{
    if n > 0 {
        lemma_name_pass(ds, fs, n - 1);
        let st = name_pass(ds, fs, n - 1);
        let st2 = name_pass(ds, fs, n);
        let i0 = n - 1;
        match ds[i0].name_spec() {
            Some(nm) => {
                let p = unused_named(fs, st.1, nm);
                lemma_first_from(fs.len() as int, p, 0);
                match first(fs.len() as int, p) {
                    Some(j) => {
                        assert(st2 == assign(st, i0, j));
                        assert(st.0[i0] is None);
                        assert(p(j));
                        assert forall|i: int|
                            0 <= i < ds.len() && (#[trigger] st2.0[i]) is Some implies i < n && (
                            st2.0[i]->0 as int) < fs.len() && st2.1[st2.0[i]->0 as int]
                            && ds[i].name_spec() == Some(fs[st2.0[i]->0 as int].name@) by {
                            if i != i0 {
                                assert(st2.0[i] == st.0[i]);
                                assert(st.1[st.0[i]->0 as int]);
                            } else {
                                assert(st2.0[i0] == Some(j as usize));
                                assert(fs[j].name@ == nm);
                                assert(st2.1[j]);
                            }
                        }
                        assert forall|k: int| 0 <= k < fs.len() && #[trigger] st2.1[k] implies exists|
                            i: int,
                        | 0 <= i < n && #[trigger] st2.0[i] == Some(k as usize) by {
                            if k == j {
                                assert(st2.0[i0] == Some(k as usize));
                            } else {
                                assert(st.1[k]);
                                let i1 = choose|i: int|
                                    0 <= i < n - 1 && #[trigger] st.0[i] == Some(k as usize);
                                assert(st2.0[i1] == Some(k as usize));
                            }
                        }
                        assert forall|i: int, k: int|
                            0 <= i < n && 0 <= k < fs.len() && (#[trigger] st2.0[i]) is None
                                && ds[i].name_spec() == Some(
                                #[trigger] fs[k].name@,
                            ) implies st2.1[k] by {
                            assert(i != i0);
                            assert(st.0[i] is None);
                        }
                    },
                    None => {
                        assert(st2 == st);
                        assert forall|i: int|
                            0 <= i < ds.len() && (#[trigger] st2.0[i]) is Some implies i < n && (
                            st2.0[i]->0 as int) < fs.len() && st2.1[st2.0[i]->0 as int]
                            && ds[i].name_spec() == Some(fs[st2.0[i]->0 as int].name@) by {
                            assert(st.0[i] is Some);
                        }
                        assert forall|i: int, k: int|
                            0 <= i < n && 0 <= k < fs.len() && (#[trigger] st2.0[i]) is None
                                && ds[i].name_spec() == Some(
                                #[trigger] fs[k].name@,
                            ) implies st2.1[k] by {
                            if i == i0 {
                                assert(!p(k));
                            }
                        }
                        assert forall|k: int| 0 <= k < fs.len() && #[trigger] st2.1[k] implies exists|
                            i: int,
                        | 0 <= i < n && #[trigger] st2.0[i] == Some(k as usize) by {
                            let i1 = choose|i: int|
                                0 <= i < n - 1 && #[trigger] st.0[i] == Some(k as usize);
                            assert(st2.0[i1] == Some(k as usize));
                        }
                    },
                }
            },
            None => {
                assert(st2 == st);
                assert forall|i: int|
                    0 <= i < ds.len() && (#[trigger] st2.0[i]) is Some implies i < n && (
                    st2.0[i]->0 as int) < fs.len() && st2.1[st2.0[i]->0 as int]
                    && ds[i].name_spec() == Some(fs[st2.0[i]->0 as int].name@) by {
                    assert(st.0[i] is Some);
                }
                assert forall|k: int| 0 <= k < fs.len() && #[trigger] st2.1[k] implies exists|
                    i: int,
                | 0 <= i < n && #[trigger] st2.0[i] == Some(k as usize) by {
                    let i1 = choose|i: int| 0 <= i < n - 1 && #[trigger] st.0[i] == Some(k as usize);
                    assert(st2.0[i1] == Some(k as usize));
                }
            },
        }
    }
}

/// The geometry tier only fills descriptors that are still unmatched.
proof fn lemma_later_tiers_keep_geometry_all(ds: Seq<OutputDescriptor>, fs: Seq<FrameInfo>, n: int)
    requires
        0 <= n <= ds.len(),
        fs.len() <= usize::MAX,
    ensures
        geometry_pass(ds, fs, n).0.len() == ds.len(),
        forall|i: int|
            0 <= i < ds.len() && (#[trigger] name_pass(ds, fs, ds.len() as int).0[i]) is Some
                ==> geometry_pass(ds, fs, n).0[i] == name_pass(ds, fs, ds.len() as int).0[i],
    decreases n,
{
    lemma_name_pass(ds, fs, ds.len() as int);
    if n > 0 {
        lemma_later_tiers_keep_geometry_all(ds, fs, n - 1);
    }
}

/// An exact-name match outranks a geometry match: a descriptor that shares its
/// name with a frame either receives a frame of that name, or that frame went
/// to another descriptor of the same name.
pub proof fn lemma_name_outranks_geometry(ds: Seq<OutputDescriptor>, fs: Seq<FrameInfo>, i: int, k: int)
    requires
        0 <= i < ds.len(),
        0 <= k < fs.len(),
        fs.len() <= usize::MAX,
        ds[i].name_spec() == Some(fs[k].name@),
    ensures
        ({
            let m = match_all(ds, fs);
            (m[i] is Some && (m[i]->0 as int) < fs.len() && ds[i].name_spec() == Some(
                fs[m[i]->0 as int].name@,
            )) || exists|i2: int|
                0 <= i2 < ds.len() && i2 != i && m[i2] == Some(k as usize) && ds[i2].name_spec()
                    == Some(fs[k].name@)
        }),
{
    let n = ds.len() as int;
    lemma_name_pass(ds, fs, n);
    lemma_fill_keeps(ds, fs, n);
    let st = name_pass(ds, fs, n);
    let m = match_all(ds, fs);
    if st.0[i] is Some {
        assert(m[i] == st.0[i]);
        assert((m[i]->0 as int) < fs.len());
        assert(ds[i].name_spec() == Some(fs[m[i]->0 as int].name@));
    } else {
        assert(st.1[k]);
        let i2 = choose|i2: int| 0 <= i2 < n && #[trigger] st.0[i2] == Some(k as usize);
        assert(m[i2] == st.0[i2]);
        assert(i2 != i);
        assert(ds[i2].name_spec() == Some(fs[k].name@));
        assert(m[i2] == Some(k as usize));
    }
}

proof fn lemma_fill_keeps(ds: Seq<OutputDescriptor>, fs: Seq<FrameInfo>, n: int)
    requires
        0 <= n <= ds.len(),
        fs.len() <= usize::MAX,
    ensures
        fill_pass(ds, fs, n).0.len() == ds.len(),
        forall|i: int|
            0 <= i < ds.len() && (#[trigger] name_pass(ds, fs, ds.len() as int).0[i]) is Some
                ==> fill_pass(ds, fs, n).0[i] == name_pass(ds, fs, ds.len() as int).0[i],
    decreases n,
{
    lemma_later_tiers_keep_geometry_all(ds, fs, ds.len() as int);
    if n > 0 {
        lemma_fill_keeps(ds, fs, n - 1);
    }
}

/// With a requested name, the first descriptor carrying it receives the
/// requested frame, whatever the geometries say.
pub proof fn lemma_selected_prefers_name(ds: Seq<OutputDescriptor>, fs: Seq<FrameInfo>, sel: Seq<char>, i: int)
    requires
        first(fs.len() as int, frame_named(fs, sel)) is Some,
        first(ds.len() as int, desc_named(ds, sel)) == Some(i),
    ensures
        match_selected(ds, fs, sel) is Ok,
        match_selected(ds, fs, sel)->Ok_0[i] == Some(
            first(fs.len() as int, frame_named(fs, sel))->0 as usize,
        ),
{
    lemma_first_from(ds.len() as int, desc_named(ds, sel), 0);
}


/// Consistency of a matching state: taken frames are exactly the frames
/// given out, and no frame is given to two descriptors.
pub open spec fn match_inv(ds: Seq<OutputDescriptor>, fs: Seq<FrameInfo>, st: MatchState) -> bool {
    &&& st.0.len() == ds.len()
    &&& st.1.len() == fs.len()
    &&& forall|i: int|
        0 <= i < ds.len() && (#[trigger] st.0[i]) is Some ==> (st.0[i]->0 as int) < fs.len()
            && st.1[st.0[i]->0 as int]
    &&& forall|k: int|
        0 <= k < fs.len() && #[trigger] st.1[k] ==> exists|i: int|
            0 <= i < ds.len() && #[trigger] st.0[i] == Some(k as usize)
    &&& forall|i: int, j: int|
        0 <= i < ds.len() && 0 <= j < ds.len() && i != j && (#[trigger] st.0[i]) is Some ==> st.0[i]
            != #[trigger] st.0[j]
}

proof fn lemma_assign_keeps_inv(
    ds: Seq<OutputDescriptor>,
    fs: Seq<FrameInfo>,
    st: MatchState,
    i0: int,
    j0: int,
)
    requires
        match_inv(ds, fs, st),
        fs.len() <= usize::MAX,
        0 <= i0 < ds.len(),
        0 <= j0 < fs.len(),
        st.0[i0] is None,
        !st.1[j0],
    ensures
        match_inv(ds, fs, assign(st, i0, j0)),
{
    let st2 = assign(st, i0, j0);
    assert forall|i: int| 0 <= i < ds.len() && (#[trigger] st2.0[i]) is Some implies (st2.0[i]->0 as int)
        < fs.len() && st2.1[st2.0[i]->0 as int] by {
        if i != i0 {
            assert(st2.0[i] == st.0[i]);
        }
    }
    assert forall|k: int| 0 <= k < fs.len() && #[trigger] st2.1[k] implies exists|i: int|
        0 <= i < ds.len() && #[trigger] st2.0[i] == Some(k as usize) by {
        if k == j0 {
            assert(st2.0[i0] == Some(k as usize));
        } else {
            assert(st.1[k]);
            let i1 = choose|i: int| 0 <= i < ds.len() && #[trigger] st.0[i] == Some(k as usize);
            assert(i1 != i0);
            assert(st2.0[i1] == Some(k as usize));
        }
    }
    assert forall|i: int, j: int|
        0 <= i < ds.len() && 0 <= j < ds.len() && i != j && (#[trigger] st2.0[i]) is Some implies st2.0[i]
        != #[trigger] st2.0[j] by {
        if i == i0 {
            if st.0[j] is Some {
                assert(st.1[st.0[j]->0 as int]);
            }
        } else if j == i0 {
            assert(st.1[st.0[i]->0 as int]);
        } else {
            assert(st2.0[i] == st.0[i]);
            assert(st2.0[j] == st.0[j]);
        }
    }
}

proof fn lemma_name_pass_inv(ds: Seq<OutputDescriptor>, fs: Seq<FrameInfo>, n: int)
    requires
        0 <= n <= ds.len(),
        fs.len() <= usize::MAX,
    ensures
        match_inv(ds, fs, name_pass(ds, fs, n)),
    decreases n,
{
    if n > 0 {
        lemma_name_pass_inv(ds, fs, n - 1);
        lemma_name_pass(ds, fs, n - 1);
        let st = name_pass(ds, fs, n - 1);
        if let Some(nm) = ds[n - 1].name_spec() {
            let p = unused_named(fs, st.1, nm);
            lemma_first_from(fs.len() as int, p, 0);
            if let Some(j) = first(fs.len() as int, p) {
                assert(p(j));
                if st.0[n - 1] is Some {
                    assert(n - 1 < n - 1);
                }
                lemma_assign_keeps_inv(ds, fs, st, n - 1, j);
            }
        }
    } else {
        let st = name_pass(ds, fs, 0);
        assert(match_inv(ds, fs, st));
    }
}

proof fn lemma_geometry_pass_inv(ds: Seq<OutputDescriptor>, fs: Seq<FrameInfo>, n: int)
    requires
        0 <= n <= ds.len(),
        fs.len() <= usize::MAX,
    ensures
        match_inv(ds, fs, geometry_pass(ds, fs, n)),
    decreases n,
{
    if n > 0 {
        lemma_geometry_pass_inv(ds, fs, n - 1);
        let st = geometry_pass(ds, fs, n - 1);
        if st.0[n - 1] is None {
            if let Some(g) = ds[n - 1].geometry_spec() {
                let p = unused_close(fs, st.1, g);
                lemma_first_from(fs.len() as int, p, 0);
                if let Some(j) = first(fs.len() as int, p) {
                    assert(p(j));
                    lemma_assign_keeps_inv(ds, fs, st, n - 1, j);
                }
            }
        }
    } else {
        lemma_name_pass_inv(ds, fs, ds.len() as int);
    }
}

proof fn lemma_fill_pass_inv(ds: Seq<OutputDescriptor>, fs: Seq<FrameInfo>, n: int)
    requires
        0 <= n <= ds.len(),
        fs.len() <= usize::MAX,
    ensures
        match_inv(ds, fs, fill_pass(ds, fs, n)),
        forall|i: int, k: int|
            0 <= i < n && 0 <= k < fs.len() && (#[trigger] fill_pass(ds, fs, n).0[i]) is None
                ==> #[trigger] fill_pass(ds, fs, n).1[k],
    decreases n,
{
    if n > 0 {
        lemma_fill_pass_inv(ds, fs, n - 1);
        let st = fill_pass(ds, fs, n - 1);
        let st2 = fill_pass(ds, fs, n);
        if st.0[n - 1] is None {
            let p = unused(st.1);
            lemma_first_from(fs.len() as int, p, 0);
            match first(fs.len() as int, p) {
                Some(j) => {
                    assert(p(j));
                    lemma_assign_keeps_inv(ds, fs, st, n - 1, j);
                    assert forall|i: int, k: int|
                        0 <= i < n && 0 <= k < fs.len() && (#[trigger] st2.0[i]) is None implies #[trigger] st2.1[k] by {
                        assert(i != n - 1);
                        assert(st2.0[i] == st.0[i]);
                    }
                },
                None => {
                    assert forall|i: int, k: int|
                        0 <= i < n && 0 <= k < fs.len() && (#[trigger] st2.0[i]) is None implies #[trigger] st2.1[k] by {
                        assert(!p(k));
                    }
                },
            }
        }
    } else {
        lemma_geometry_pass_inv(ds, fs, ds.len() as int);
    }
}

/// Frame `k` is given to some descriptor in `m`.
pub open spec fn given_out(m: Seq<Option<usize>>, k: int) -> bool {
    exists|i: int| 0 <= i < m.len() && #[trigger] m[i] == Some(k as usize)
}

/// Matching for all outputs gives each frame to at most one output, and
/// leaves an output without a frame only when every frame is given out; so
/// the number of pairs is the smaller of the two counts.
pub proof fn lemma_match_all_pairs(ds: Seq<OutputDescriptor>, fs: Seq<FrameInfo>)
    requires
        fs.len() <= usize::MAX,
    ensures
        ({
            let m = match_all(ds, fs);
            &&& m.len() == ds.len()
            &&& forall|i: int| 0 <= i < m.len() && (#[trigger] m[i]) is Some ==> (m[i]->0 as int) < fs.len()
            &&& forall|i: int, j: int|
                0 <= i < m.len() && 0 <= j < m.len() && i != j && (#[trigger] m[i]) is Some ==> m[i]
                    != #[trigger] m[j]
            &&& (exists|i: int| 0 <= i < m.len() && (#[trigger] m[i]) is None) ==> forall|k: int|
                0 <= k < fs.len() ==> #[trigger] given_out(m, k)
        }),
{
    let n = ds.len() as int;
    lemma_fill_pass_inv(ds, fs, n);
    let st = fill_pass(ds, fs, n);
    let m = match_all(ds, fs);
    if exists|i: int| 0 <= i < m.len() && (#[trigger] m[i]) is None {
        let i = choose|i: int| 0 <= i < m.len() && (#[trigger] m[i]) is None;
        assert forall|k: int| 0 <= k < fs.len() implies #[trigger] given_out(m, k) by {
            assert(st.1[k]);
            let i2 = choose|i2: int| 0 <= i2 < ds.len() && #[trigger] st.0[i2] == Some(k as usize);
            assert(m[i2] == Some(k as usize));
        }
    }
}

} // verus!

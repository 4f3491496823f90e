use vstd::prelude::*;

verus! {

/// Index of an attribute in an `AttrDataBlock`.
pub type AttrId = usize;

/// Subdivisions of one frame in a `FrameValue`.
pub const TICKS_PER_FRAME: i64 = 1000;

/// A point on the time line, in fixed point: `ticks` counts thousandths
/// of a frame, so sub-frames such as 1.5 or 2.25 are exact.
#[derive(Clone, Copy, Debug, PartialEq, Eq, Structural)]
pub struct FrameValue {
    pub ticks: i64,
}

impl FrameValue {
    /// The whole frame `n`.
    pub fn from_frame(n: i32) -> (r: FrameValue)
        ensures
            r.ticks == n * TICKS_PER_FRAME,
    {
        FrameValue { ticks: n as i64 * TICKS_PER_FRAME }
    }

    /// The frame `ticks / TICKS_PER_FRAME`.
    pub fn from_ticks(ticks: i64) -> (r: FrameValue)
        ensures
            r.ticks == ticks,
    {
        FrameValue { ticks }
    }
}

/// Why an attribute has no value at a frame.
#[derive(Clone, Copy, Debug, PartialEq, Eq, Structural)]
pub enum AttrError {
    NoSuchAttribute,
    NoValueAtFrame,
}

/// The values of one attribute: one value for every frame, or samples
/// keyed by frame.
pub enum Attr<R> {
    Static(R),
    Animated(Vec<(FrameValue, R)>),
}

/// Store of attribute values, queried by attribute and frame.
pub struct AttrDataBlock<R> {
    pub attrs: Vec<Attr<R>>,
}

/// The value that `samples` holds at frame `f`: the last sample keyed `f`.
pub open spec fn sample_at<R>(samples: Seq<(FrameValue, R)>, f: FrameValue) -> Option<R>
    decreases samples.len(),
{
    if samples.len() == 0 {
        None
    } else if samples.last().0 == f {
        Some(samples.last().1)
    } else {
        sample_at(samples.drop_last(), f)
    }
}

impl<R: Copy> AttrDataBlock<R> {
    /// The value of attribute `a` at frame `f`, or why there is none.
    pub open spec fn lookup(&self, a: AttrId, f: FrameValue) -> Result<R, AttrError> {
        if a >= self.attrs@.len() {
            Err(AttrError::NoSuchAttribute)
        } else {
            match self.attrs@[a as int] {
                Attr::Static(v) => Ok(v),
                Attr::Animated(s) => match sample_at(s@, f) {
                    Some(v) => Ok(v),
                    None => Err(AttrError::NoValueAtFrame),
                },
            }
        }
    }

    /// Whether every attribute of `ids` has a value at frame `f`.
    pub open spec fn all_available(&self, ids: Seq<AttrId>, f: FrameValue) -> bool {
        forall|k: int| 0 <= k < ids.len() ==> (#[trigger] self.lookup(ids[k], f)) is Ok
    }

    pub fn new() -> (r: Self)
        ensures
            r.attrs@.len() == 0,
    {
        AttrDataBlock { attrs: Vec::new() }
    }

    /// Adds an attribute with one value for every frame.
    pub fn add_static(&mut self, v: R) -> (id: AttrId)
        ensures
            id == old(self).attrs@.len(),
            final(self).attrs@ == old(self).attrs@.push(Attr::Static(v)),
    {
        let id = self.attrs.len();
        self.attrs.push(Attr::Static(v));
        id
    }

    /// Adds an attribute with no sample yet.
    pub fn add_animated(&mut self) -> (id: AttrId)
        ensures
            id == old(self).attrs@.len(),
            final(self).attrs@.len() == old(self).attrs@.len() + 1,
            forall|a: AttrId, f: FrameValue|
                a != id ==> #[trigger] final(self).lookup(a, f) == old(self).lookup(a, f),
            forall|f: FrameValue| #[trigger]
                final(self).lookup(id, f) == Err::<R, AttrError>(AttrError::NoValueAtFrame),
    {
        let id = self.attrs.len();
        self.attrs.push(Attr::Animated(Vec::new()));
        proof {
            assert forall|a: AttrId, f: FrameValue|
                a != id implies #[trigger] self.lookup(a, f) == old(self).lookup(a, f) by {
                if a < id {
                    assert(self.attrs@[a as int] == old(self).attrs@[a as int]);
                }
            }
        }
        id
    }

    /// Sets the value of attribute `a` at frame `f`. A static attribute
    /// takes `v` as its one value.
    pub fn set_value(&mut self, a: AttrId, f: FrameValue, v: R)
        requires
            a < old(self).attrs@.len(),
        ensures
            final(self).attrs@.len() == old(self).attrs@.len(),
            final(self).lookup(a, f) == Ok::<R, AttrError>(v),
            forall|b: AttrId, g: FrameValue|
                (b != a || (g != f && old(self).attrs@[a as int] is Animated)) ==> #[trigger] final(self).lookup(b, g)
                    == old(self).lookup(b, g),
    {
        let ghost pre = self.attrs@;
        match &mut self.attrs[a] {
            Attr::Static(x) => {
                *x = v;
            },
            Attr::Animated(s) => {
                s.push((f, v));
            },
        }
        proof {
            assert forall|b: AttrId, g: FrameValue|
                (b != a || (g != f && pre[a as int] is Animated)) implies #[trigger] self.lookup(b, g)
                == old(self).lookup(b, g) by {
                if b == a {
                    let s = self.attrs@[a as int]->Animated_0@;
                    assert(s.drop_last() == pre[a as int]->Animated_0@);
                }
            }
        }
    }

    /// The value of attribute `a` at frame `f`, or why there is none.
    pub fn get(&self, a: AttrId, f: FrameValue) -> (r: Result<R, AttrError>)
        ensures
            r == self.lookup(a, f),
    {
        if a >= self.attrs.len() {
            return Err(AttrError::NoSuchAttribute);
        }
        match &self.attrs[a] {
            Attr::Static(v) => Ok(*v),
            Attr::Animated(s) => {
                let mut i: usize = s.len();
                assert(s@.subrange(0, i as int) == s@);
                while i > 0
                    invariant
                        i <= s@.len(),
                        a < self.attrs@.len(),
                        self.attrs@[a as int] matches Attr::Animated(t) && t@ == s@,
                        sample_at(s@, f) == sample_at(s@.subrange(0, i as int), f),
                    decreases i,
                {
                    let ghost pre = s@.subrange(0, i as int);
                    assert(pre.drop_last() == s@.subrange(0, i - 1));
                    if s[i - 1].0 == f {
                        assert(pre.last() == s@[i - 1]);
                        assert(sample_at(pre, f) == Some(pre.last().1));
                        return Ok(s[i - 1].1);
                    }
                    i -= 1;
                }
                assert(s@.subrange(0, 0).len() == 0);
                Err(AttrError::NoValueAtFrame)
            },
        }
    }

    /// The values of all attributes of `ids` at frame `f`, in order, or
    /// `None` when one of them has no value there.
    pub fn get_all(&self, ids: &Vec<AttrId>, f: FrameValue) -> (r: Option<Vec<R>>)
        ensures
            r is Some <==> self.all_available(ids@, f),
            r matches Some(v) ==> v@.len() == ids@.len() && forall|k: int|
                0 <= k < ids@.len() ==> self.lookup(ids@[k], f) == Ok::<R, AttrError>(
                    #[trigger] v@[k],
                ),
    {
        let mut out: Vec<R> = Vec::new();
        let mut k: usize = 0;
        while k < ids.len()
            invariant
                k <= ids@.len(),
                out@.len() == k,
                forall|q: int| 0 <= q < k ==> self.lookup(ids@[q], f) == Ok::<R, AttrError>(#[trigger] out@[q]),
            decreases ids@.len() - k,
        {
            match self.get(ids[k], f) {
                Ok(v) => out.push(v),
                Err(_) => {
                    assert(self.lookup(ids@[k as int], f) is Err);
                    return None;
                },
            }
            k += 1;
        }
        assert forall|q: int| 0 <= q < ids@.len() implies (#[trigger] self.lookup(ids@[q], f)) is Ok by {
            assert(self.lookup(ids@[q], f) == Ok::<R, AttrError>(out@[q]));
        }
        Some(out)
    }
}

} // verus!

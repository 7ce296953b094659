use std::rc::Rc;
use vstd::prelude::*;

use super::values::{view_value, Datum};

verus! {

/// One binding: a name and the value it stands for.
#[derive(Debug)]
pub struct Value(pub String, pub super::values::Value);

/// An ordered list of bindings; the first with a name wins.
#[derive(Debug)]
pub struct Values(pub Vec<Value>);

/// One frame of an environment.
#[derive(Debug)]
pub enum Frame {
    One(Value),
    Many(Values),
    /// A whole environment checked as one frame.
    Nested(NameEnv),
    Empty,
}

/// A frame and the environment it extends.
#[derive(Debug)]
pub struct Link {
    pub frame: Frame,
    pub parent: NameEnv,
}

/// A persistent, shareable chain of frames, innermost first.
#[derive(Debug)]
pub struct NameEnv {
    pub link: Option<Rc<Link>>,
}

/// The model of a frame: bindings in order, or a nested environment.
pub enum FrameModel {
    Pairs(Seq<(Seq<char>, Datum)>),
    Nested(EnvModel),
}

/// The model of an environment: frames from the innermost outwards.
pub enum EnvModel {
    Root,
    Bind(Box<FrameModel>, Box<EnvModel>),
}

pub open spec fn view_binding(b: Value) -> (Seq<char>, Datum)
    decreases b, 1int,
{
    (b.0@, view_value(b.1))
}

pub open spec fn view_bindings(bs: Vec<Value>) -> Seq<(Seq<char>, Datum)>
    decreases bs, 1int,
{
    Seq::new(
        bs@.len(),
        |i: int|
            {
                if 0 <= i < bs@.len() {
                    proof {
                        broadcast use vstd::std_specs::vec::axiom_vec_index_decreases;

                    }
                    view_binding(bs@[i])
                } else {
                    (Seq::empty(), Datum::Bool(false))
                }
            },
    )
}

pub open spec fn view_frame(f: Frame) -> FrameModel
    decreases f, 1int,
{
    match f {
        Frame::One(b) => FrameModel::Pairs(seq![view_binding(b)]),
        Frame::Many(bs) => FrameModel::Pairs(view_bindings(bs.0)),
        Frame::Nested(e) => FrameModel::Nested(view_env(e)),
        Frame::Empty => FrameModel::Pairs(Seq::empty()),
    }
}

pub open spec fn view_env(e: NameEnv) -> EnvModel
    decreases e, 1int,
{
    match e.link {
        None => EnvModel::Root,
        Some(l) => EnvModel::Bind(Box::new(view_frame(l.frame)), Box::new(view_env(l.parent))),
    }
}

} // verus!

verus! {

/// The first binding of `name` among `ps`.
pub open spec fn pairs_lookup(ps: Seq<(Seq<char>, Datum)>, name: Seq<char>) -> Option<Datum>
    decreases ps.len(),
{
    if ps.len() == 0 {
        None
    } else if ps[0].0 == name {
        Some(ps[0].1)
    } else {
        pairs_lookup(ps.drop_first(), name)
    }
}

pub open spec fn frame_lookup(f: FrameModel, name: Seq<char>) -> Option<Datum>
    decreases f,
{
    match f {
        FrameModel::Pairs(ps) => pairs_lookup(ps, name),
        FrameModel::Nested(e) => env_lookup(e, name),
    }
}

/// What `name` stands for: the innermost frame that binds it decides.
pub open spec fn env_lookup(e: EnvModel, name: Seq<char>) -> Option<Datum>
    decreases e,
{
    match e {
        EnvModel::Root => None,
        EnvModel::Bind(f, p) => match frame_lookup(*f, name) {
            Some(v) => Some(v),
            None => env_lookup(*p, name),
        },
    }
}

/// `e` extended with the frame `f`, checked before the rest.
pub open spec fn extend(e: EnvModel, f: FrameModel) -> EnvModel {
    EnvModel::Bind(Box::new(f), Box::new(e))
}

/// `r` is the value found for a name whose binding the model gives as `d`.
pub open spec fn found(r: Option<super::values::Value>, d: Option<Datum>) -> bool {
    match d {
        Some(v) => r is Some && r->Some_0.deep() == v,
        None => r is None,
    }
}

/// A scope that can be asked what a name stands for.
pub trait Lookup {
    spec fn spec_lookup(&self, name: Seq<char>) -> Option<Datum>;

    fn lookup(&self, name: &String) -> (r: Option<super::values::Value>)
        ensures
            found(r, self.spec_lookup(name@)),
    ;
}

fn lookup_bindings(bs: &Vec<Value>, name: &String) -> (r: Option<super::values::Value>)
    ensures
        found(r, pairs_lookup(view_bindings(*bs), name@)),
{
    let ghost ps = view_bindings(*bs);
    assert(ps.subrange(0, ps.len() as int) =~= ps);
    let mut i: usize = 0;
    while i < bs.len()
        invariant
            i <= bs@.len(),
            ps == view_bindings(*bs),
            pairs_lookup(ps, name@) == pairs_lookup(ps.subrange(i as int, ps.len() as int), name@),
        decreases bs@.len() - i,
    {
        let ghost rest = ps.subrange(i as int, ps.len() as int);
        assert(rest.drop_first() =~= ps.subrange(i + 1, ps.len() as int));
        assert(rest[0] == view_binding(bs@[i as int]));
        if bs[i].0 == *name {
            return Some(bs[i].1.share());
        }
        i += 1;
    }
    assert(ps.subrange(i as int, ps.len() as int).len() == 0);
    None
}

fn lookup_frame(f: &Frame, name: &String) -> (r: Option<super::values::Value>)
    ensures
        found(r, frame_lookup(view_frame(*f), name@)),
    decreases *f,
{
    match f {
        Frame::One(b) => {
            proof {
                let ps = seq![view_binding(*b)];
                assert(ps.drop_first() =~= Seq::<(Seq<char>, Datum)>::empty());
                assert(pairs_lookup(ps.drop_first(), name@) is None);
                assert(ps[0].0 == b.0@);
            }
            if b.0 == *name {
                Some(b.1.share())
            } else {
                None
            }
        },
        Frame::Many(bs) => lookup_bindings(&bs.0, name),
        Frame::Nested(e) => lookup_env(e, name),
        Frame::Empty => None,
    }
}

fn lookup_env(e: &NameEnv, name: &String) -> (r: Option<super::values::Value>)
    ensures
        found(r, env_lookup(view_env(*e), name@)),
    decreases *e,
{
    match &e.link {
        None => None,
        Some(link) => match lookup_frame(&link.frame, name) {
            Some(v) => Some(v),
            None => lookup_env(&link.parent, name),
        },
    }
}

impl Lookup for Value {
    open spec fn spec_lookup(&self, name: Seq<char>) -> Option<Datum> {
        if self.0@ == name {
            Some(view_value(self.1))
        } else {
            None
        }
    }

    fn lookup(&self, name: &String) -> (r: Option<super::values::Value>) {
        if self.0 == *name {
            Some(self.1.share())
        } else {
            None
        }
    }
}

impl Values {
    pub fn new(vals: Vec<Value>) -> (r: Values)
        ensures
            r.0 == vals,
    {
        Values(vals)
    }
}

impl Lookup for Values {
    open spec fn spec_lookup(&self, name: Seq<char>) -> Option<Datum> {
        pairs_lookup(view_bindings(self.0), name)
    }

    fn lookup(&self, name: &String) -> (r: Option<super::values::Value>) {
        lookup_bindings(&self.0, name)
    }
}

impl Lookup for Frame {
    open spec fn spec_lookup(&self, name: Seq<char>) -> Option<Datum> {
        frame_lookup(view_frame(*self), name)
    }

    fn lookup(&self, name: &String) -> (r: Option<super::values::Value>) {
        lookup_frame(self, name)
    }
}

impl Lookup for NameEnv {
    open spec fn spec_lookup(&self, name: Seq<char>) -> Option<Datum> {
        env_lookup(view_env(*self), name)
    }

    fn lookup(&self, name: &String) -> (r: Option<super::values::Value>) {
        lookup_env(self, name)
    }
}

impl NameEnv {
    pub open spec fn deep(&self) -> EnvModel {
        view_env(*self)
    }

    /// The empty environment.
    pub fn new() -> (r: NameEnv)
        ensures
            r.deep() == EnvModel::Root,
    {
        NameEnv { link: None }
    }

    /// A new environment that checks `frame` first, then this one, which
    /// stays as it was.
    pub fn bind(&self, frame: Frame) -> (r: NameEnv)
        ensures
            r.deep() == extend(self.deep(), view_frame(frame)),
    {
        NameEnv { link: Some(Rc::new(Link { frame, parent: self.share() })) }
    }

    /// Another handle on the same environment.
    pub fn share(&self) -> (r: NameEnv)
        ensures
            r == *self,
    {
        match &self.link {
            None => NameEnv { link: None },
            Some(l) => NameEnv { link: Some(Rc::clone(l)) },
        }
    }
}

} // verus!

//! The typed store of intermediate results that the stages of one job share.

use vstd::prelude::*;
use crate::keyed::KeyedList;

verus! {

/// Key under which the downloaded source file's path is kept.
pub const ORIGINAL_DOWNLOAD_PATH: &'static str = "original_download_path";

/// Key under which the downloaded thumbnail's path is kept.
pub const ORIGINAL_THUMBNAIL_PATH: &'static str = "original_thumbnail_path";

/// Key under which the downloaded video's title is kept.
pub const YTDL_TITLE: &'static str = "ytdl_title";

/// Key under which the downloaded video's description is kept.
pub const YTDL_DESCRIPTION: &'static str = "ytdl_description";

/// Key under which the cut clip's path is kept.
pub const CUT_VIDEO: &'static str = "cut_video";

/// One stored value, tagged with its kind.
#[derive(Debug, Clone, PartialEq, Eq)]
pub enum Value {
    Path(String),
    Text(String),
}

impl Value {
    pub fn copy(&self) -> (r: Value)
        ensures
            r == *self,
    {
        match self {
            Value::Path(p) => Value::Path(p.clone()),
            Value::Text(t) => Value::Text(t.clone()),
        }
    }
}

/// The path stored under `k`, when what is stored there is a path.
pub open spec fn path_in(m: Map<Seq<char>, Value>, k: Seq<char>) -> Option<String> {
    if m.contains_key(k) {
        match m[k] {
            Value::Path(p) => Some(p),
            Value::Text(_) => None,
        }
    } else {
        None
    }
}

/// The text stored under `k`, when what is stored there is text.
pub open spec fn text_in(m: Map<Seq<char>, Value>, k: Seq<char>) -> Option<String> {
    if m.contains_key(k) {
        match m[k] {
            Value::Text(t) => Some(t),
            Value::Path(_) => None,
        }
    } else {
        None
    }
}

/// Values of several kinds under string keys.
#[derive(Debug, Clone, PartialEq, Eq)]
pub struct VariableBag {
    pub vars: KeyedList<Value>,
}

impl VariableBag {
    pub open spec fn wf(&self) -> bool {
        self.vars.wf()
    }

    pub open spec fn view(&self) -> Map<Seq<char>, Value> {
        self.vars.map()
    }

    pub fn new() -> (r: VariableBag)
        ensures
            r.wf(),
            r.view() == Map::<Seq<char>, Value>::empty(),
    {
        VariableBag { vars: KeyedList::new() }
    }

    /// Stores `value` under `key`, over anything stored there before.
    pub fn insert_var(&mut self, key: &str, value: Value)
        requires
            old(self).wf(),
        ensures
            final(self).wf(),
            final(self).view() == old(self).view().insert(key@, value),
    {
        self.vars.insert(String::from_str(key), value);
    }

    /// The path stored under `key`; nothing where the key is absent or holds text.
    pub fn get_path(&self, key: &str) -> (r: Option<String>)
        requires
            self.wf(),
        ensures
            r == path_in(self.view(), key@),
    {
        let k = String::from_str(key);
        match self.vars.get(&k) {
            Some(Value::Path(p)) => Some(p.clone()),
            _ => None,
        }
    }

    /// The text stored under `key`; nothing where the key is absent or holds a path.
    pub fn get_text(&self, key: &str) -> (r: Option<String>)
        requires
            self.wf(),
        ensures
            r == text_in(self.view(), key@),
    {
        let k = String::from_str(key);
        match self.vars.get(&k) {
            Some(Value::Text(t)) => Some(t.clone()),
            _ => None,
        }
    }

    /// Stores every entry of `other` here, each over what was stored under its key.
    pub fn merge(&mut self, other: VariableBag)
        requires
            old(self).wf(),
            other.wf(),
        ensures
            final(self).wf(),
            final(self).view() == old(self).view().union_prefer_right(other.view()),
    {
        self.vars.absorb(other.vars);
    }
}

} // verus!

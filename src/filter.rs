use vstd::prelude::*;
use crate::messages::{Message, PluginType};
use crate::priority::Priority;

verus! {

/// A predicate that decides whether a controller accepts a message.
pub trait MessageFilter {
    spec fn accepts(&self, m: Message) -> bool;

    fn filter(&self, m: &Message) -> (r: bool)
        ensures
            r == self.accepts(*m),
    ;
}

/// Accepts plugin-specific messages for one plugin type whose priority is at
/// least a configured minimum; rejects everything else.
#[derive(Clone, Copy, Debug, PartialEq, Eq, Structural)]
pub struct PriorityFilter {
    pub min_priority: Priority,
    pub plugin_type: PluginType,
}

impl MessageFilter for PriorityFilter {
    open spec fn accepts(&self, m: Message) -> bool {
        match m {
            Message::PluginSpecific { content, priority } => content.spec_plugin_type() == self.plugin_type
                && priority.spec_rank() >= self.min_priority.spec_rank(),
            _ => false,
        }
    }

    fn filter(&self, m: &Message) -> (r: bool) {
        match m {
            Message::PluginSpecific { content, priority } => {
                content.plugin_type() == self.plugin_type && priority.at_least(&self.min_priority)
            },
            _ => false,
        }
    }
}

/// Accepts controller-addressed messages whose target is the configured
/// controller id. The id can be changed at run time, to hand control over.
#[derive(Debug)]
pub struct DynamicMessageFilter {
    controller_id: String,
}

impl DynamicMessageFilter {
    pub fn new(controller_id: String) -> (r: Self)
        ensures
            r.spec_controller_id() == controller_id@,
    {
        DynamicMessageFilter { controller_id }
    }

    pub closed spec fn spec_controller_id(&self) -> Seq<char> {
        self.controller_id@
    }

    pub fn controller_id(&self) -> (r: &str)
        ensures
            r@ == self.spec_controller_id(),
    {
        self.controller_id.as_str()
    }

    pub fn set_controller_id(&mut self, controller_id: String)
        ensures
            final(self).spec_controller_id() == controller_id@,
    {
        self.controller_id = controller_id;
    }
}

impl Clone for DynamicMessageFilter {
    fn clone(&self) -> (r: Self)
        ensures
            r == *self,
    {
        DynamicMessageFilter { controller_id: self.controller_id.clone() }
    }
}

impl MessageFilter for DynamicMessageFilter {
    open spec fn accepts(&self, m: Message) -> bool {
        match m {
            Message::ControllerMessage { target_controller_id, .. } => target_controller_id@
                == self.spec_controller_id(),
            _ => false,
        }
    }

    fn filter(&self, m: &Message) -> (r: bool) {
        match m {
            Message::ControllerMessage { target_controller_id, .. } => *target_controller_id
                == self.controller_id,
            _ => false,
        }
    }
}

/// Accepts broadcasts and plugin-specific messages of priority `High` or
/// above, and all critical data; rejects everything else.
#[derive(Clone, Copy, Debug, PartialEq, Eq, Structural)]
pub struct MyConcreteFilter;

impl MessageFilter for MyConcreteFilter {
    open spec fn accepts(&self, m: Message) -> bool {
        match m {
            Message::Broadcast { priority, .. } => priority.spec_rank() >= Priority::High.spec_rank(),
            Message::PluginSpecific { priority, .. } => priority.spec_rank()
                >= Priority::High.spec_rank(),
            Message::CriticalData { .. } => true,
            _ => false,
        }
    }

    fn filter(&self, m: &Message) -> (r: bool) {
        match m {
            Message::Broadcast { priority, .. } => priority.at_least(&Priority::High),
            Message::PluginSpecific { priority, .. } => priority.at_least(&Priority::High),
            Message::CriticalData { .. } => true,
            _ => false,
        }
    }
}

/// One installed filter of the chain.
#[derive(Debug)]
pub enum Filter {
    Priority(PriorityFilter),
    Controller(DynamicMessageFilter),
    Concrete(MyConcreteFilter),
    /// Rejects every message.
    RejectAll,
}

impl Clone for Filter {
    fn clone(&self) -> (r: Self)
        ensures
            r == *self,
    {
        match self {
            Filter::Priority(f) => Filter::Priority(*f),
            Filter::Controller(f) => Filter::Controller(f.clone()),
            Filter::Concrete(f) => Filter::Concrete(*f),
            Filter::RejectAll => Filter::RejectAll,
        }
    }
}

impl MessageFilter for Filter {
    open spec fn accepts(&self, m: Message) -> bool {
        match self {
            Filter::Priority(f) => f.accepts(m),
            Filter::Controller(f) => f.accepts(m),
            Filter::Concrete(f) => f.accepts(m),
            Filter::RejectAll => false,
        }
    }

    fn filter(&self, m: &Message) -> (r: bool) {
        match self {
            Filter::Priority(f) => f.filter(m),
            Filter::Controller(f) => f.filter(m),
            Filter::Concrete(f) => f.filter(m),
            Filter::RejectAll => false,
        }
    }
}

/// The filters a controller applies, in the order they were installed.
#[derive(Debug)]
pub struct FilterChain {
    filters: Vec<Filter>,
}

/// Whether every filter of `fs` accepts `m`.
pub open spec fn all_accept(fs: Seq<Filter>, m: Message) -> bool {
    forall|i: int| 0 <= i < fs.len() ==> (#[trigger] fs[i]).accepts(m)
}

impl FilterChain {
    pub closed spec fn view(&self) -> Seq<Filter> {
        self.filters@
    }

    /// A chain with no filters, which accepts every message.
    pub fn new() -> (r: Self)
        ensures
            r@ == Seq::<Filter>::empty(),
    {
        FilterChain { filters: Vec::new() }
    }

    /// Installs `f` after the filters already present.
    pub fn add(&mut self, f: Filter)
        ensures
            final(self)@ == old(self)@.push(f),
    {
        self.filters.push(f);
    }

    pub fn len(&self) -> (r: usize)
        ensures
            r == self@.len(),
    {
        self.filters.len()
    }

    /// Runs every filter on `m` in installation order, without stopping at
    /// the first rejection, and accepts `m` iff all of them accept it.
    pub fn accepts(&self, m: &Message) -> (r: bool)
        ensures
            r == all_accept(self@, *m),
    {
        let mut verdict = true;
        let mut i: usize = 0;
        while i < self.filters.len()
            invariant
                i <= self.filters@.len(),
                verdict == all_accept(self.filters@.subrange(0, i as int), *m),
            decreases self.filters@.len() - i,
        {
            let ok = self.filters[i].filter(m);
            proof {
                let before = self.filters@.subrange(0, i as int);
                let after = self.filters@.subrange(0, i as int + 1);
                assert forall|k: int| 0 <= k < i implies after[k] == before[k] by {}
                assert(after[i as int] == self.filters@[i as int]);
                if verdict && ok {
                    assert forall|k: int| 0 <= k < after.len() implies (#[trigger] after[k]).accepts(*m) by {
                        if k < i {
                            assert(after[k] == before[k]);
                        }
                    }
                }
                if !ok {
                    assert(!after[i as int].accepts(*m));
                }
                if !verdict {
                    let k = choose|k: int| 0 <= k < before.len() && !(#[trigger] before[k]).accepts(*m);
                    assert(after[k] == before[k]);
                }
            }
            verdict = verdict && ok;
            i = i + 1;
        }
        proof {
            assert(self.filters@.subrange(0, i as int) =~= self.filters@);
        }
        verdict
    }
}

impl Clone for FilterChain {
    fn clone(&self) -> (r: Self)
        ensures
            r@ == self@,
    {
        let mut out: Vec<Filter> = Vec::new();
        let mut i: usize = 0;
        while i < self.filters.len()
            invariant
                i <= self.filters@.len(),
                out@ == self.filters@.subrange(0, i as int),
            decreases self.filters@.len() - i,
        {
            out.push(self.filters[i].clone());
            proof {
                assert(out@ =~= self.filters@.subrange(0, i as int + 1));
            }
            i = i + 1;
        }
        proof {
            assert(self.filters@.subrange(0, i as int) =~= self.filters@);
        }
        FilterChain { filters: out }
    }
}

} // verus!

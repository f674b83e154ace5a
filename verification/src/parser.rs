//! The stack parser: a registry of per-schema resolvers, a configurable
//! default schema, and the resolution path that locates the document's root
//! container, dispatches to the right resolver, and turns the resolved
//! record's version token into the versioned file's path.

use vstd::prelude::*;

use crate::errors::ErrView;
use crate::errors::SwInstallError;
use crate::schemas::ReturnElt;
use crate::schemas::SchemaWrapper;
use crate::schemas::return_elt_version;
use crate::schemas::schema_id;
use crate::schemas::wrapper_scan;
use crate::stamp::StampValue;
use crate::text::find_last_attr;
use crate::text::last_attr;
use crate::text::str_eq;
use crate::utils::versioned_from_stack_of;
use crate::utils::versioned_from_swinstall_stack;
use crate::xml::ReadStep;
use crate::xml::collect_events;
use crate::xml::events_of;
use vstd::string::StringExecFns;

verus! {

/// Last-registration-wins lookup over the registry's entries.
pub open spec fn entries_lookup(entries: Seq<(String, SchemaWrapper)>, k: Seq<char>) -> Option<
    SchemaWrapper,
>
    decreases entries.len(),
{
    if entries.len() == 0 {
        None
    } else if entries.last().0@ == k {
        Some(entries.last().1)
    } else {
        entries_lookup(entries.drop_last(), k)
    }
}

/// The registry of per-schema resolvers and the configured default schema
/// identifier, used when a document's root declares none.
#[derive(Debug)]
pub struct SwinstallParser {
    registry: Vec<(String, SchemaWrapper)>,
    default_schema: Option<String>,
}

impl SwinstallParser {
    /// The resolver registered under an identifier, if any.
    pub closed spec fn lookup(self, k: Seq<char>) -> Option<SchemaWrapper> {
        entries_lookup(self.registry@, k)
    }

    /// The configured default schema identifier, if any.
    pub closed spec fn default_id(self) -> Option<Seq<char>> {
        match self.default_schema {
            Some(s) => Some(s@),
            None => None,
        }
    }

    /// How many registrations the registry holds.
    pub closed spec fn entry_count(self) -> nat {
        self.registry@.len()
    }

    /// An empty registry with no default schema.
    pub fn new() -> (r: Self)
        ensures
            forall|k: Seq<char>| r.lookup(k) is None,
            r.default_id() is None,
            r.entry_count() == 0,
    {
        SwinstallParser { registry: Vec::new(), default_schema: None }
    }

    /// Register a resolver under its own schema identifier.  A later
    /// registration for the same identifier wins.
    pub fn register(&mut self, value: SchemaWrapper)
        ensures
            forall|k: Seq<char>|
                #[trigger] final (self).lookup(k) == (if k == schema_id(value) {
                    Some(value)
                } else {
                    old(self).lookup(k)
                }),
            final (self).default_id() == old(self).default_id(),
            final (self).entry_count() == old(self).entry_count() + 1,
    {
        let ghost v = value;
        let key = value.schema().to_owned();
        let ghost gk = key@;
        self.registry.push((key, value));
        proof {
            assert(self.registry@.drop_last() =~= old(self).registry@);
            assert forall|k: Seq<char>|
                #[trigger] entries_lookup(self.registry@, k) == (if k == schema_id(v) {
                    Some(v)
                } else {
                    entries_lookup(old(self).registry@, k)
                }) by {
                assert(self.registry@.last().0@ == gk);
                assert(self.registry@.last().1 == v);
            };
        }
    }

    /// Remember the schema to fall back on when a document declares none;
    /// refused (returning `false`) when nothing is registered under it.
    pub fn set_default_schema(&mut self, schema: String) -> (r: bool)
        ensures
            r == (old(self).lookup(schema@) is Some),
            final (self).default_id() == (if r {
                Some(schema@)
            } else {
                old(self).default_id()
            }),
            forall|k: Seq<char>| #[trigger] final (self).lookup(k) == old(self).lookup(k),
            final (self).entry_count() == old(self).entry_count(),
    {
        let known = self.get_component(schema.as_str()).is_some();
        if !known {
            return false;
        }
        self.default_schema = Some(schema);
        true
    }

    /// Retrieve the resolver registered under a schema identifier.
    pub fn get_component(&self, schema: &str) -> (r: Option<&SchemaWrapper>)
        ensures
            match r {
                Some(w) => self.lookup(schema@) == Some(*w),
                None => self.lookup(schema@) is None,
            },
    {
        let n = self.registry.len();
        proof {
            assert(self.registry@.take(n as int) =~= self.registry@);
        }
        let mut i: usize = n;
        while i > 0
            invariant
                i <= n,
                n == self.registry@.len(),
                entries_lookup(self.registry@, schema@) == entries_lookup(
                    self.registry@.take(i as int),
                    schema@,
                ),
            decreases i,
        {
            proof {
                assert(self.registry@.take(i as int).drop_last() =~= self.registry@.take(
                    i - 1 as int,
                ));
                assert(self.registry@.take(i as int).last() == self.registry@[i - 1 as int]);
            }
            if str_eq(self.registry[i - 1].0.as_str(), schema) {
                return Some(&self.registry[i - 1].1);
            }
            i = i - 1;
        }
        proof {
            assert(self.registry@.take(0) =~= Seq::<(String, SchemaWrapper)>::empty());
        }
        None
    }

    /// How many resolvers have been registered.
    pub fn schema_count(&self) -> (r: usize)
        ensures
            r == self.entry_count(),
    {
        self.registry.len()
    }

    /// What resolution yields over an event sequence from position `i` on:
    /// scan forward to the root `stack_history` container (anything before
    /// it is ignored), take its declared schema — or the default where it
    /// declares none — and hand the rest of the stream to that schema's
    /// resolver; the resolved record's version token then names the
    /// versioned file, a sibling of the history document.
    pub open spec fn resolve_from(
        self,
        events: Seq<ReadStep>,
        i: int,
        stack: Seq<char>,
        target: StampValue,
    ) -> Result<Seq<char>, ErrView>
        decreases events.len() - i,
    {
        if i < 0 || i >= events.len() {
            Err(ErrView::NoCurrentFound)
        } else {
            match events[i] {
                ReadStep::Eof => Err(ErrView::NoCurrentFound),
                ReadStep::Fail(m) => Err(ErrView::QuckXmlError(m@)),
                ReadStep::Open(name, attrs, _) => if name@ == "stack_history"@ {
                    match attrs {
                        Err(m) => Err(ErrView::QuckXmlError(m@)),
                        Ok(list) => {
                            let sid = match last_attr(list@, "schema"@) {
                                Some(s) => Some(s),
                                None => self.default_id(),
                            };
                            match sid {
                                None => Err(ErrView::NoDefaultSchema),
                                Some(sid) => match self.lookup(sid) {
                                    None => Err(ErrView::NoSuchSchema(sid)),
                                    Some(w) => match wrapper_scan(w, events, i + 1, target) {
                                        Err(e) => Err(e),
                                        Ok(e) => versioned_from_stack_of(
                                            stack,
                                            return_elt_version(e),
                                        ),
                                    },
                                },
                            }
                        },
                    }
                } else {
                    self.resolve_from(events, i + 1, stack, target)
                },
                _ => self.resolve_from(events, i + 1, stack, target),
            }
        }
    }

    /// Resolve the versioned file current at `datetime` over an already
    /// collected event sequence.
    pub fn resolve_events(
        &self,
        events: &Vec<ReadStep>,
        swinstall_stack: &str,
        datetime: &StampValue,
    ) -> (r: Result<String, SwInstallError>)
        ensures
            match r {
                Ok(s) => self.resolve_from(events@, 0, swinstall_stack@, *datetime) == Ok::<
                    Seq<char>,
                    ErrView,
                >(s@),
                Err(e) => self.resolve_from(events@, 0, swinstall_stack@, *datetime) == Err::<
                    Seq<char>,
                    ErrView,
                >(e@),
            },
    {
        let n = events.len();
        let mut i: usize = 0;
        while i < n
            invariant
                n == events@.len(),
                self.resolve_from(events@, 0, swinstall_stack@, *datetime) == self.resolve_from(
                    events@,
                    i as int,
                    swinstall_stack@,
                    *datetime,
                ),
            decreases n - i,
        {
            match &events[i] {
                ReadStep::Eof => {
                    return Err(SwInstallError::NoCurrentFound);
                },
                ReadStep::Fail(m) => {
                    return Err(SwInstallError::QuckXmlError(m.clone()));
                },
                ReadStep::Open(name, attrs, _) => {
                    if str_eq(name.as_str(), "stack_history") {
                        let list = match attrs {
                            Ok(l) => l,
                            Err(m) => {
                                return Err(SwInstallError::QuckXmlError(m.clone()));
                            },
                        };
                        let sid: String = match find_last_attr(list, "schema") {
                            Some(s) => s,
                            None => match &self.default_schema {
                                Some(d) => d.clone(),
                                None => {
                                    return Err(SwInstallError::NoDefaultSchema);
                                },
                            },
                        };
                        let comp = match self.get_component(sid.as_str()) {
                            Some(c) => c,
                            None => {
                                return Err(SwInstallError::NoSuchSchema(sid));
                            },
                        };
                        let elt = match comp.current_at(events, i + 1, datetime) {
                            Ok(e) => e,
                            Err(er) => {
                                return Err(er);
                            },
                        };
                        let version = elt.version();
                        return versioned_from_swinstall_stack(swinstall_stack, version.as_str());
                    }
                },
                _ => {},
            }
            i = i + 1;
        }
        Err(SwInstallError::NoCurrentFound)
    }

    /// Resolve the versioned file current at `datetime` from the history
    /// document's text: the result is the resolution of the document's own
    /// event stream.
    pub fn current_at(&self, doc: &str, swinstall_stack: &str, datetime: &StampValue) -> (r: Result<
        String,
        SwInstallError,
    >)
        ensures
            match r {
                Ok(s) => self.resolve_from(events_of(doc@), 0, swinstall_stack@, *datetime) == Ok::<
                    Seq<char>,
                    ErrView,
                >(s@),
                Err(e) => self.resolve_from(events_of(doc@), 0, swinstall_stack@, *datetime)
                    == Err::<Seq<char>, ErrView>(e@),
            },
    {
        let events = collect_events(doc);
        self.resolve_events(&events, swinstall_stack, datetime)
    }
}

} // verus!

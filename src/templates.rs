use vstd::prelude::*;

verus! {

/// A named markup fragment that widgets clone from.
pub struct Template {
    pub id: String,
    pub content: String,
}

/// Why a template was not registered.
#[derive(PartialEq, Eq, Structural, Clone, Copy, Debug)]
pub enum TemplateError {
    /// A template with the same id is registered already; it is kept.
    DuplicateId,
}

/// Whether `id` names one of the entries.
pub open spec fn has_id(entries: Seq<(Seq<char>, Seq<char>)>, id: Seq<char>) -> bool {
    exists|i: int| 0 <= i < entries.len() && #[trigger] entries[i].0 == id
}

/// No two entries share an id.
pub open spec fn ids_unique(entries: Seq<(Seq<char>, Seq<char>)>) -> bool {
    forall|i: int, j: int|
        0 <= i < entries.len() && 0 <= j < entries.len() && i != j ==> #[trigger] entries[i].0
            != #[trigger] entries[j].0
}

/// The content registered under `id`, if any.
pub open spec fn content_of(entries: Seq<(Seq<char>, Seq<char>)>, id: Seq<char>) -> Option<
    Seq<char>,
> {
    if has_id(entries, id) {
        Some(entries[choose|i: int| 0 <= i < entries.len() && #[trigger] entries[i].0 == id].1)
    } else {
        None
    }
}

/// What registering `content` under `id` does to the entries `before`,
/// leaving `after` and returning `r`.
pub open spec fn registered(
    before: Seq<(Seq<char>, Seq<char>)>,
    after: Seq<(Seq<char>, Seq<char>)>,
    id: Seq<char>,
    content: Seq<char>,
    r: Result<(), TemplateError>,
) -> bool {
    &&& has_id(before, id) ==> r == Err::<(), TemplateError>(TemplateError::DuplicateId) && after
        == before
    &&& !has_id(before, id) ==> r is Ok && after == before.push((id, content))
}

/// Registering two templates under one id has one outcome, whatever the
/// registry held: the second registration is refused and changes nothing, and
/// the id keeps the content it had after the first, which is the first
/// content where the id was new.
pub proof fn second_registration_refused(
    before: Seq<(Seq<char>, Seq<char>)>,
    middle: Seq<(Seq<char>, Seq<char>)>,
    after: Seq<(Seq<char>, Seq<char>)>,
    id: Seq<char>,
    first: Seq<char>,
    second: Seq<char>,
    r1: Result<(), TemplateError>,
    r2: Result<(), TemplateError>,
)
    requires
        ids_unique(before),
        registered(before, middle, id, first, r1),
        registered(middle, after, id, second, r2),
    ensures
        r2 == Err::<(), TemplateError>(TemplateError::DuplicateId),
        after == middle,
        content_of(after, id) == content_of(middle, id),
        !has_id(before, id) ==> content_of(after, id) == Some(first),
{
    if !has_id(before, id) {
        let n = before.len() as int;
        assert(middle[n].0 == id);
        assert(has_id(middle, id));
        let k = choose|k: int| 0 <= k < middle.len() && #[trigger] middle[k].0 == id;
        if k != n {
            assert(before[k].0 == id);
        }
    } else {
        let k = choose|k: int| 0 <= k < before.len() && #[trigger] before[k].0 == id;
        assert(middle[k].0 == id);
    }
}

/// The table of templates shared by the widgets of one document: each id
/// once, in the order of registration. Registering an id a second time is
/// refused and leaves the first content in place.
pub struct TemplateRegistry {
    entries: Vec<Template>,
}

impl View for TemplateRegistry {
    type V = Seq<(Seq<char>, Seq<char>)>;

    closed spec fn view(&self) -> Seq<(Seq<char>, Seq<char>)> {
        Seq::new(self.entries@.len(), |i: int| (self.entries@[i].id@, self.entries@[i].content@))
    }
}

impl TemplateRegistry {
    /// The registry's invariant: ids are unique.
    pub open spec fn wf(&self) -> bool {
        ids_unique(self@)
    }

    /// An empty registry.
    pub fn new() -> (r: Self)
        ensures
            r.wf(),
            r@ == Seq::<(Seq<char>, Seq<char>)>::empty(),
    {
        let r = TemplateRegistry { entries: Vec::new() };
        assert(r@ =~= Seq::<(Seq<char>, Seq<char>)>::empty());
        r
    }

    /// The number of registered templates.
    pub fn len(&self) -> (r: usize)
        ensures
            r == self@.len(),
    {
        self.entries.len()
    }

    /// The position of the entry with id `template_id`, if any.
    fn position(&self, template_id: &String) -> (r: Option<usize>)
        requires
            self.wf(),
        ensures
            r.is_some() <==> has_id(self@, template_id@),
            r.is_some() ==> r.unwrap() < self@.len() && self@[r.unwrap() as int].0
                == template_id@,
    {
        let mut i: usize = 0;
        while i < self.entries.len()
            invariant
                0 <= i <= self.entries@.len(),
                forall|k: int| 0 <= k < i ==> #[trigger] self@[k].0 != template_id@,
            decreases self.entries@.len() - i,
        {
            if self.entries[i].id == *template_id {
                assert(self@[i as int].0 == template_id@);
                return Some(i);
            }
            i = i + 1;
        }
        assert forall|k: int| 0 <= k < self@.len() implies #[trigger] self@[k].0 != template_id@ by {
        }
        None
    }

    /// Whether a template is registered under `template_id`.
    pub fn contains(&self, template_id: &String) -> (r: bool)
        requires
            self.wf(),
        ensures
            r == has_id(self@, template_id@),
    {
        self.position(template_id).is_some()
    }

    /// Registers `template_content` under `template_id`. An id that is
    /// registered already is refused, and the registry stays as it was.
    pub fn add_template(&mut self, template_id: String, template_content: String) -> (r: Result<
        (),
        TemplateError,
    >)
        requires
            old(self).wf(),
        ensures
            final(self).wf(),
            registered(old(self)@, final(self)@, template_id@, template_content@, r),
    {
        if self.position(&template_id).is_some() {
            return Err(TemplateError::DuplicateId);
        }
        let ghost before = self@;
        self.entries.push(Template { id: template_id, content: template_content });
        assert(self@ =~= before.push((template_id@, template_content@)));
        Ok(())
    }

    /// A copy of the content registered under `template_id`. The registry
    /// hands out copies only, never its own entry.
    pub fn get(&self, template_id: &String) -> (r: Option<String>)
        requires
            self.wf(),
        ensures
            r.is_some() == has_id(self@, template_id@),
            r.is_some() ==> Some(r.unwrap()@) == content_of(self@, template_id@),
    {
        match self.position(template_id) {
            Some(i) => {
                proof {
                    let k = choose|k: int| 0 <= k < self@.len() && #[trigger] self@[k].0 == template_id@;
                    assert(k == i as int);
                }
                Some(self.entries[i].content.clone())
            },
            None => None,
        }
    }
}

} // verus!

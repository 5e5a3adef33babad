//! The sources that take part in indexing.
use crate::paths::path_join;
use crate::source::IndexerSource;
use crate::text::same;
use vstd::prelude::*;
use vstd::string::*;

verus! {

use crate::paths::path_joined;

/// A source, its name and the directory for its state.
pub struct SourceInstance<S> {
    pub instance_id: String,
    pub state_dir: String,
    pub source: S,
}

/// The sources, in the order of their registration, and the fields that each kind of source
/// adds.
pub struct SourceRegistry<S: IndexerSource> {
    pub instances: Vec<SourceInstance<S>>,
    pub plugin_fields_by_kind: Vec<(&'static str, Vec<S::Field>)>,
}

/// Whether a list has fields for a kind.
pub open spec fn knows_kind<F>(list: Seq<(&'static str, Vec<F>)>, kind: Seq<char>) -> bool {
    exists|i: int| 0 <= i < list.len() && (#[trigger] list[i]).0@ == kind
}

/// Whether each kind stands in the list at most once.
pub open spec fn kinds_distinct<F>(list: Seq<(&'static str, Vec<F>)>) -> bool {
    forall|i: int, j: int|
        0 <= i < j < list.len() ==> (#[trigger] list[i]).0@ != (#[trigger] list[j]).0@
}

/// The list after a source of the given kind came with the given fields: the fields of the
/// first source of a kind that has any are kept.
pub open spec fn fields_after<F>(
    list: Seq<(&'static str, Vec<F>)>,
    kind: &'static str,
    fields: Vec<F>,
) -> Seq<(&'static str, Vec<F>)> {
    if fields@.len() == 0 || knows_kind(list, kind@) {
        list
    } else {
        list.push((kind, fields))
    }
}

/// The directory for the state of an instance.
pub open spec fn state_dir_of(root: Seq<char>, kind: Seq<char>, id: Seq<char>) -> Seq<char> {
    path_joined(path_joined(root, kind), id)
}

impl<S: IndexerSource> SourceRegistry<S> {
    /// The registry without sources.
    pub fn new() -> (r: Self)
        ensures
            r.instances@.len() == 0,
            r.plugin_fields_by_kind@.len() == 0,
    {
        SourceRegistry { instances: Vec::new(), plugin_fields_by_kind: Vec::new() }
    }

    /// Adds a source at the end.
    pub fn register(&mut self, instance_id: String, state_dir_root: &str, source: S)
        ensures
            final(self).instances@.len() == old(self).instances@.len() + 1,
            final(self).instances@.drop_last() == old(self).instances@,
            final(self).instances@.last().instance_id@ == instance_id@,
            final(self).instances@.last().source == source,
            exists|kind: &'static str, fields: Vec<S::Field>|
                #[trigger] call_ensures(S::kind, (&source,), kind) && #[trigger] call_ensures(
                    S::extra_fields,
                    (&source,),
                    fields,
                ) && final(self).plugin_fields_by_kind@ == fields_after(
                    old(self).plugin_fields_by_kind@,
                    kind,
                    fields,
                ) && final(self).instances@.last().state_dir@ == state_dir_of(
                    state_dir_root@,
                    kind@,
                    instance_id@,
                ),
    {
        let kind = source.kind();
        let fields = source.extra_fields();
        let ghost given = fields;
        let ghost src = source;
        let ghost list = self.plugin_fields_by_kind@;
        if fields.len() > 0 {
            let mut known = false;
            let mut i: usize = 0;
            while i < self.plugin_fields_by_kind.len()
                invariant
                    i <= self.plugin_fields_by_kind@.len(),
                    self.plugin_fields_by_kind@ == list,
                    self.instances@ == old(self).instances@,
                    known ==> knows_kind(list, kind@),
                    !known ==> forall|j: int| 0 <= j < i ==> (#[trigger] list[j]).0@ != kind@,
                decreases self.plugin_fields_by_kind.len() - i,
            {
                if same(self.plugin_fields_by_kind[i].0, kind) {
                    assert(list[i as int].0@ == kind@);
                    known = true;
                }
                i = i + 1;
            }
            if !known {
                self.plugin_fields_by_kind.push((kind, fields));
            }
        }
        let state_dir = path_join(path_join(state_dir_root, kind).as_str(), instance_id.as_str());
        self.instances.push(SourceInstance { instance_id, state_dir, source });
        assert(self.instances@.drop_last() =~= old(self).instances@);
        assert(call_ensures(S::kind, (&src,), kind) && call_ensures(S::extra_fields, (&src,), given));
    }
}

impl<S: IndexerSource> Default for SourceRegistry<S> {
    fn default() -> (r: Self)
        ensures
            r.instances@.len() == 0,
            r.plugin_fields_by_kind@.len() == 0,
    {
        SourceRegistry::new()
    }
}

/// Registering keeps each kind at most once in the list of fields, and what was there stays.
pub proof fn law_fields_after<F>(
    list: Seq<(&'static str, Vec<F>)>,
    kind: &'static str,
    fields: Vec<F>,
)
    requires
        kinds_distinct(list),
    ensures
        kinds_distinct(fields_after(list, kind, fields)),
        fields_after(list, kind, fields).len() >= list.len(),
        fields_after(list, kind, fields).take(list.len() as int) == list,
{
    assert(fields_after(list, kind, fields).take(list.len() as int) =~= list);
}

/// The fields of a kind are taken from the first source of it that has any; a further source of
/// a kind that is known, or one without fields, adds none.
pub proof fn law_fields_of_a_new_kind<F>(
    list: Seq<(&'static str, Vec<F>)>,
    kind: &'static str,
    fields: Vec<F>,
    more: Vec<F>,
)
    requires
        fields@.len() > 0,
    ensures
        ({
            let after = fields_after(list, kind, fields);
            &&& knows_kind(after, kind@)
            &&& fields_after(after, kind, more) == after
            &&& !knows_kind(list, kind@) ==> after.last() == (kind, fields) && after.len()
                == list.len() + 1
            &&& knows_kind(list, kind@) ==> after == list
        }),
        more@.len() == 0 ==> fields_after(list, kind, more) == list,
{
    let after = fields_after(list, kind, fields);
    if !knows_kind(list, kind@) {
        assert(after[list.len() as int].0@ == kind@);
    }
}

/// Every source has a state directory of its own below the root: that of its kind, and in it
/// one by its name.
pub proof fn law_state_dirs(root: Seq<char>, kind: Seq<char>, id: Seq<char>)
    requires
        root.len() > 0,
        crate::paths::is_plain_name(kind),
        crate::paths::is_plain_name(id),
    ensures
        crate::paths::components_of(state_dir_of(root, kind, id)) == crate::paths::components_of(
            root,
        ).push(kind).push(id),
{
    crate::paths::law_joined_path(root, kind, id);
    crate::paths::law_joined_path(path_joined(root, kind), id, kind);
}

}

//! Building MongoDB projection documents from type-checked field names.
use vstd::prelude::*;

use crate::bson_specs::{
    bson_clone, bson_from_i32, document_entries, document_insert, document_new, int32_bson,
};
use crate::entries::{entries_from_pairs, entries_get, lemma_insert_get, Entries};
use crate::field_witnesses::{FieldName, HasField};
use crate::path::Path;

verus! {

/// Joins the parts with `.` between each two neighbours.
pub open spec fn join_with_dots(parts: Seq<Seq<char>>) -> Seq<char>
    decreases parts.len(),
{
    if parts.len() == 0 {
        Seq::empty()
    } else if parts.len() == 1 {
        parts[0]
    } else {
        join_with_dots(parts.drop_last()) + seq!['.'] + parts.last()
    }
}

/// The dotted path of the field `name` below the path components `prefix`:
/// the name alone without a prefix, else the prefix joined by dots, a dot and
/// the name.
pub open spec fn spec_field_path(prefix: Seq<Seq<char>>, name: Seq<char>) -> Seq<char> {
    if prefix.len() == 0 {
        name
    } else {
        join_with_dots(prefix) + seq!['.'] + name
    }
}

/// The characters of each string.
pub open spec fn strings_view(v: Seq<String>) -> Seq<Seq<char>> {
    v.map_values(|s: String| s@)
}

/// The clause value that includes a field (1) or excludes it (0).
pub open spec fn flag_value(includes: bool) -> bson::Bson {
    int32_bson(if includes { 1i32 } else { 0i32 })
}

/// A field's path is the prefix with the field's name appended, all joined
/// by dots.
pub proof fn lemma_field_path_is_join(prefix: Seq<Seq<char>>, name: Seq<char>)
    ensures
        spec_field_path(prefix, name) == join_with_dots(prefix.push(name)),
{
    assert(prefix.push(name).drop_last() =~= prefix);
    if prefix.len() == 0 {
        assert(prefix.push(name).len() == 1);
    }
}

/// Under one prefix, different field names give different paths.
pub proof fn lemma_field_path_injective(prefix: Seq<Seq<char>>, a: Seq<char>, b: Seq<char>)
    requires
        spec_field_path(prefix, a) == spec_field_path(prefix, b),
    ensures
        a == b,
{
    if prefix.len() > 0 {
        let head = join_with_dots(prefix) + seq!['.'];
        assert(spec_field_path(prefix, a) == head + a);
        assert(spec_field_path(prefix, b) == head + b);
        assert((head + a).subrange(head.len() as int, (head + a).len() as int) =~= a);
        assert((head + b).subrange(head.len() as int, (head + b).len() as int) =~= b);
    }
}

/// With no prefix, a field's path is the field's name, unchanged.
pub proof fn law_field_path_without_prefix(name: Seq<char>)
    ensures
        spec_field_path(Seq::empty(), name) == name,
{
}

/// Below a single prefix part, a field's path is that part, one dot, and the
/// name, each unchanged.
pub proof fn law_field_path_one_part(part: Seq<char>, name: Seq<char>)
    ensures
        spec_field_path(seq![part], name) == part + seq!['.'] + name,
{
    assert(seq![part].len() == 1);
    assert(join_with_dots(seq![part]) == part);
}

/// One more prefix part: the path of a name below `prefix` followed by `part`
/// is the path of `part` below `prefix`, one dot, and the name unchanged.
/// With the law for an empty prefix this fixes every path.
pub proof fn law_field_path_extend(prefix: Seq<Seq<char>>, part: Seq<char>, name: Seq<char>)
    ensures
        spec_field_path(prefix.push(part), name) == spec_field_path(prefix, part) + seq!['.']
            + name,
{
    let longer = prefix.push(part);
    assert(longer.drop_last() =~= prefix);
    assert(longer.last() == part);
    if prefix.len() == 0 {
        assert(longer.len() == 1);
        assert(longer[0] == part);
    }
}

/// A single part joins to itself.
pub proof fn law_join_one(part: Seq<char>)
    ensures
        join_with_dots(seq![part]) == part,
{
    assert(seq![part].len() == 1);
}

/// Joining one more part adds one dot and the part, unchanged.
pub proof fn law_join_push(parts: Seq<Seq<char>>, part: Seq<char>)
    requires
        parts.len() > 0,
    ensures
        join_with_dots(parts.push(part)) == join_with_dots(parts) + seq!['.'] + part,
{
    assert(parts.push(part).drop_last() =~= parts);
}

/// Below a non-empty prefix, a path ends with one dot and then exactly the
/// name, and begins with the prefix joined by dots.
pub proof fn law_field_path_ends_with_name(prefix: Seq<Seq<char>>, name: Seq<char>)
    requires
        prefix.len() > 0,
    ensures
        ({
            let path = spec_field_path(prefix, name);
            let head = join_with_dots(prefix);
            &&& path.len() == head.len() + 1 + name.len()
            &&& path.subrange(0, head.len() as int) == head
            &&& path[head.len() as int] == '.'
            &&& path.subrange(head.len() as int + 1, path.len() as int) == name
        }),
{
    let path = spec_field_path(prefix, name);
    let head = join_with_dots(prefix);
    assert(path.subrange(0, head.len() as int) =~= head);
    assert(path.subrange(head.len() as int + 1, path.len() as int) =~= name);
}

/// The number of dots in a text.
pub open spec fn dot_count(s: Seq<char>) -> nat
    decreases s.len(),
{
    if s.len() == 0 {
        0
    } else {
        dot_count(s.drop_last()) + if s.last() == '.' { 1nat } else { 0nat }
    }
}

/// The number of dots in all the parts together.
pub open spec fn dots_in_parts(parts: Seq<Seq<char>>) -> nat
    decreases parts.len(),
{
    if parts.len() == 0 {
        0
    } else {
        dots_in_parts(parts.drop_last()) + dot_count(parts.last())
    }
}

/// A lone dot counts one.
pub proof fn lemma_dot_count_of_dot()
    ensures
        dot_count(seq!['.']) == 1,
{
    let d = seq!['.'];
    assert(d.drop_last() =~= Seq::<char>::empty());
    assert(dot_count(Seq::<char>::empty()) == 0);
    assert(d.last() == '.');
}

/// Dots in a concatenation are those of both sides.
pub proof fn lemma_dot_count_add(a: Seq<char>, b: Seq<char>)
    ensures
        dot_count(a + b) == dot_count(a) + dot_count(b),
    decreases b.len(),
{
    if b.len() == 0 {
        assert(a + b =~= a);
    } else {
        lemma_dot_count_add(a, b.drop_last());
        assert((a + b).drop_last() =~= a + b.drop_last());
        assert((a + b).last() == b.last());
    }
}

/// Joining adds exactly one dot between each two neighbouring parts.
pub proof fn lemma_join_dot_count(parts: Seq<Seq<char>>)
    requires
        parts.len() > 0,
    ensures
        dot_count(join_with_dots(parts)) == dots_in_parts(parts) + parts.len() - 1,
    decreases parts.len(),
{
    if parts.len() == 1 {
        assert(parts.drop_last().len() == 0);
    } else {
        lemma_join_dot_count(parts.drop_last());
        let head = join_with_dots(parts.drop_last());
        lemma_dot_count_add(head, seq!['.']);
        lemma_dot_count_add(head + seq!['.'], parts.last());
        lemma_dot_count_of_dot();
    }
}

/// A field's path holds the dots of its parts and its name, and one more
/// dot for each prefix part: one separator before the name and one between
/// each two prefix parts.
pub proof fn law_field_path_dot_count(prefix: Seq<Seq<char>>, name: Seq<char>)
    ensures
        dot_count(spec_field_path(prefix, name)) == dots_in_parts(prefix) + dot_count(name)
            + prefix.len(),
{
    if prefix.len() > 0 {
        let head = join_with_dots(prefix);
        lemma_join_dot_count(prefix);
        lemma_dot_count_add(head, seq!['.']);
        lemma_dot_count_add(head + seq!['.'], name);
        lemma_dot_count_of_dot();
    }
}

/// What a builder holds: the path components under which it projects, and
/// its clauses (path, value) in the order they were added.
pub struct ProjectionView {
    pub prefix: Seq<Seq<char>>,
    pub clauses: Entries,
}

impl ProjectionView {
    /// The same builder with one more clause at the end.
    pub open spec fn with_clause(self, path: Seq<char>, value: bson::Bson) -> ProjectionView {
        ProjectionView { prefix: self.prefix, clauses: self.clauses.push((path, value)) }
    }

    /// The same builder with the given clauses after its own.
    pub open spec fn with_clauses(self, more: Entries) -> ProjectionView {
        ProjectionView { prefix: self.prefix, clauses: self.clauses + more }
    }
}

/// When a path is projected again, the latest clause gives its value in the
/// built document, and every other path keeps the value it had.
pub proof fn lemma_latest_clause_wins(v: ProjectionView, path: Seq<char>, value: bson::Bson, other: Seq<char>)
    ensures
        entries_get(entries_from_pairs(v.with_clause(path, value).clauses), path) == Some(value),
        other != path ==> entries_get(entries_from_pairs(v.with_clause(path, value).clauses), other)
            == entries_get(entries_from_pairs(v.clauses), other),
{
    let c = v.with_clause(path, value).clauses;
    assert(c.drop_last() =~= v.clauses);
    lemma_insert_get(entries_from_pairs(v.clauses), path, value, path);
    lemma_insert_get(entries_from_pairs(v.clauses), path, value, other);
}

/// The paths of the clauses by their characters, the values as they are.
pub open spec fn clauses_view(c: Seq<(String, bson::Bson)>) -> Entries {
    c.map_values(|p: (String, bson::Bson)| (p.0@, p.1))
}

/// A builder for MongoDB projection documents that accepts only fields that
/// the target type `T` has.
pub struct BasicProjectionBuilder<T> {
    prefix: Vec<String>,
    clauses: Vec<(String, bson::Bson)>,
    _marker: std::marker::PhantomData<T>,
}

/// For a closure that keeps the prefix and only appends clauses that depend
/// on the prefix alone (as calls of `includes`, `excludes` and `project` do),
/// `with_field::<F, _>(f)` leaves a builder as applying `f` to it directly
/// does: the first precondition says what `f` does, the second is what
/// `with_field` ensures, the third is a direct run of `f` from the same view.
pub proof fn lemma_with_field_same_as_direct<
    F: FieldName,
    T: HasField<F>,
    N: FnOnce(&mut BasicProjectionBuilder<T>),
>(
    f: N,
    adds: spec_fn(Seq<Seq<char>>) -> Entries,
    start: ProjectionView,
    via_with_field: ProjectionView,
    direct: ProjectionView,
)
    requires
        forall|b: &mut BasicProjectionBuilder<T>|
            #[trigger] call_ensures(f, (b,), ()) ==> final(b)@ == (*b)@.with_clauses(
                adds((*b)@.prefix),
            ),
        exists|nested: &mut BasicProjectionBuilder<T>|
            {
                &&& (*nested)@ == (ProjectionView { prefix: start.prefix, clauses: Seq::empty() })
                &&& #[trigger] call_ensures(f, (nested,), ())
                &&& via_with_field == start.with_clauses(final(nested)@.clauses)
            },
        exists|b: &mut BasicProjectionBuilder<T>|
            (*b)@ == start && #[trigger] call_ensures(f, (b,), ()) && final(b)@ == direct,
    ensures
        via_with_field == direct,
{
    let nested = choose|nested: &mut BasicProjectionBuilder<T>|
        {
            &&& (*nested)@ == (ProjectionView { prefix: start.prefix, clauses: Seq::empty() })
            &&& #[trigger] call_ensures(f, (nested,), ())
            &&& via_with_field == start.with_clauses(final(nested)@.clauses)
        };
    assert(final(nested)@.clauses =~= adds(start.prefix));
}

/// The field type given to `with_field` never changes the outcome: when `f1`
/// and `f2` leave equal builders from equal ones, what `with_field::<F1, _>(f1)`
/// and `with_field::<F2, _>(f2)` ensure from equal builders gives equal
/// builders.
pub proof fn lemma_with_field_ignores_field<
    F1: FieldName,
    F2: FieldName,
    T: HasField<F1> + HasField<F2>,
    N1: FnOnce(&mut BasicProjectionBuilder<T>),
    N2: FnOnce(&mut BasicProjectionBuilder<T>),
>(f1: N1, f2: N2, start: ProjectionView, end1: ProjectionView, end2: ProjectionView)
    requires
        forall|b1: &mut BasicProjectionBuilder<T>, b2: &mut BasicProjectionBuilder<T>|
            #[trigger] call_ensures(f1, (b1,), ()) && #[trigger] call_ensures(f2, (b2,), ()) && (*b1)@
                == (*b2)@ ==> final(b1)@ == final(b2)@,
        exists|nested: &mut BasicProjectionBuilder<T>|
            {
                &&& (*nested)@ == (ProjectionView { prefix: start.prefix, clauses: Seq::empty() })
                &&& #[trigger] call_ensures(f1, (nested,), ())
                &&& end1 == start.with_clauses(final(nested)@.clauses)
            },
        exists|nested: &mut BasicProjectionBuilder<T>|
            {
                &&& (*nested)@ == (ProjectionView { prefix: start.prefix, clauses: Seq::empty() })
                &&& #[trigger] call_ensures(f2, (nested,), ())
                &&& end2 == start.with_clauses(final(nested)@.clauses)
            },
    ensures
        end1 == end2,
{
    let nested1 = choose|nested: &mut BasicProjectionBuilder<T>|
        {
            &&& (*nested)@ == (ProjectionView { prefix: start.prefix, clauses: Seq::empty() })
            &&& #[trigger] call_ensures(f1, (nested,), ())
            &&& end1 == start.with_clauses(final(nested)@.clauses)
        };
    let nested2 = choose|nested: &mut BasicProjectionBuilder<T>|
        {
            &&& (*nested)@ == (ProjectionView { prefix: start.prefix, clauses: Seq::empty() })
            &&& #[trigger] call_ensures(f2, (nested,), ())
            &&& end2 == start.with_clauses(final(nested)@.clauses)
        };
    assert(final(nested1)@ == final(nested2)@);
}

impl<T> View for BasicProjectionBuilder<T> {
    type V = ProjectionView;

    closed spec fn view(&self) -> ProjectionView {
        ProjectionView { prefix: strings_view(self.prefix@), clauses: clauses_view(self.clauses@) }
    }
}

impl<T> Default for BasicProjectionBuilder<T> {
    fn default() -> (b: Self)
        ensures
            b@ == (ProjectionView { prefix: Seq::empty(), clauses: Seq::empty() }),
    {
        Self::new()
    }
}

impl<T> BasicProjectionBuilder<T> {
    /// A builder with no prefix and no clauses.
    pub fn new() -> (b: Self)
        ensures
            b@ == (ProjectionView { prefix: Seq::empty(), clauses: Seq::empty() }),
    {
        let b = Self { prefix: Vec::new(), clauses: Vec::new(), _marker: std::marker::PhantomData };
        assert(b@.prefix =~= Seq::<Seq<char>>::empty());
        assert(b@.clauses =~= Seq::<(Seq<char>, bson::Bson)>::empty());
        b
    }

    /// A builder with no clauses that projects fields below `prefix`.
    pub fn with_prefix(prefix: Vec<String>) -> (b: Self)
        ensures
            b@ == (ProjectionView { prefix: strings_view(prefix@), clauses: Seq::empty() }),
    {
        let b = Self { prefix, clauses: Vec::new(), _marker: std::marker::PhantomData };
        assert(b@.clauses =~= Seq::<(Seq<char>, bson::Bson)>::empty());
        b
    }

    /// The full dotted path of the field `name` below this builder's prefix.
    pub fn field_path_of(&self, name: &str) -> (path: String)
        ensures
            path@ == spec_field_path(self@.prefix, name@),
    {
        if self.prefix.len() == 0 {
            return name.to_owned();
        }
        let mut out = String::new();
        let n = self.prefix.len();
        let ghost pv = self@.prefix;
        proof {
            reveal_strlit(".");
        }
        let mut i: usize = 0;
        while i < n
            invariant
                n == self.prefix@.len(),
                pv == self@.prefix,
                pv.len() == n,
                0 <= i <= n,
                out@ == join_with_dots(pv.take(i as int)),
                "."@ == seq!['.'],
            decreases n - i,
        {
            if i > 0 {
                out.append(".");
            }
            out.append(self.prefix[i].as_str());
            assert(pv.take(i + 1).drop_last() == pv.take(i as int));
            i = i + 1;
        }
        assert(pv.take(n as int) == pv);
        out.append(".");
        out.append(name);
        out
    }

    /// The full dotted path of the field `F` below this builder's prefix.
    pub fn field_path<F: FieldName>(&self) -> (path: String)
        ensures
            exists|name: &'static str|
                #[trigger] call_ensures(F::field_name, (), name) && path@ == spec_field_path(
                    self@.prefix,
                    name@,
                ),
    {
        let name = F::field_name();
        self.field_path_of(name)
    }

    /// Adds a clause for the field `F` with the value 1 (`includes`) or 0.
    fn project_field<F: FieldName>(&mut self, includes: bool) -> (r: &mut Self) where
        T: HasField<F>,

        ensures
            exists|name: &'static str|
                #[trigger] call_ensures(F::field_name, (), name) && r@ == old(self)@.with_clause(
                    spec_field_path(old(self)@.prefix, name@),
                    flag_value(includes),
                ),
            *final(self) == *final(r),
    {
        let path = self.field_path::<F>();
        let flag: i32 = if includes {
            1
        } else {
            0
        };
        let value = bson_from_i32(flag);
        self.clauses.push((path, value));
        assert(self@.clauses =~= old(self)@.clauses.push((path@, value)));
        self
    }

    /// Adds a clause that includes the field `F` (value 1).
    pub fn includes<F: FieldName>(&mut self) -> (r: &mut Self) where T: HasField<F>
        ensures
            exists|name: &'static str|
                #[trigger] call_ensures(F::field_name, (), name) && r@ == old(self)@.with_clause(
                    spec_field_path(old(self)@.prefix, name@),
                    flag_value(true),
                ),
            *final(self) == *final(r),
    {
        self.project_field::<F>(true)
    }

    /// Adds a clause that excludes the field `F` (value 0).
    pub fn excludes<F: FieldName>(&mut self) -> (r: &mut Self) where T: HasField<F>
        ensures
            exists|name: &'static str|
                #[trigger] call_ensures(F::field_name, (), name) && r@ == old(self)@.with_clause(
                    spec_field_path(old(self)@.prefix, name@),
                    flag_value(false),
                ),
            *final(self) == *final(r),
    {
        self.project_field::<F>(false)
    }

    /// Projects fields of a nested type: `lookup` turns the path of this
    /// builder into the path of the nested field, `f` adds clauses to a fresh
    /// builder under that path, and those clauses are appended here in order.
    pub fn with_lookup<F: FieldName, L, G: FieldName, U: HasField<G>, N>(
        &mut self,
        lookup: L,
        f: N,
    ) -> (r: &mut Self) where
        T: HasField<F>,
        L: FnOnce(&Path<F, T, T>) -> Path<G, U, T>,
        N: FnOnce(&mut BasicProjectionBuilder<U>),

        requires
            forall|p: &Path<F, T, T>|
                strings_view(p.prefix@) == old(self)@.prefix ==> #[trigger] call_requires(
                    lookup,
                    (p,),
                ),
            forall|b: &mut BasicProjectionBuilder<U>|
                (*b)@.clauses.len() == 0 ==> #[trigger] call_requires(f, (b,)),
        ensures
            exists|
                base: &Path<F, T, T>,
                resolved: Path<G, U, T>,
                nested: &mut BasicProjectionBuilder<U>,
            |
                {
                    &&& strings_view(base.prefix@) == old(self)@.prefix
                    &&& #[trigger] call_ensures(lookup, (base,), resolved)
                    &&& (*nested)@ == (ProjectionView {
                        prefix: strings_view(resolved.prefix@),
                        clauses: Seq::empty(),
                    })
                    &&& #[trigger] call_ensures(f, (nested,), ())
                    &&& r@ == old(self)@.with_clauses(final(nested)@.clauses)
                },
            *final(self) == *final(r),
    {
        let base_field: Path<F, T, T> = Path {
            prefix: self.prefix.clone(),
            _marker: std::marker::PhantomData,
        };
        assert(base_field.prefix@ =~= self.prefix@);
        let resolved_field = lookup(&base_field);
        let nested_prefix = resolved_field.prefix.clone();
        assert(nested_prefix@ =~= resolved_field.prefix@);
        let mut nested_builder = BasicProjectionBuilder::<U>::with_prefix(nested_prefix);
        f(&mut nested_builder);
        let ghost nested_after = nested_builder;
        self.clauses.append(&mut nested_builder.clauses);
        assert(self@.clauses =~= old(self)@.clauses + nested_after@.clauses);
        self
    }

    /// Projects fields in the context of the field `F`: `f` adds clauses to a
    /// fresh builder with this builder's prefix, and those clauses are
    /// appended here in order.
    pub fn with_field<F: FieldName, N>(&mut self, f: N) -> (r: &mut Self) where
        T: HasField<F>,
        N: FnOnce(&mut BasicProjectionBuilder<T>),

        requires
            forall|b: &mut BasicProjectionBuilder<T>|
                (*b)@.clauses.len() == 0 ==> #[trigger] call_requires(f, (b,)),
        ensures
            exists|nested: &mut BasicProjectionBuilder<T>|
                {
                    &&& (*nested)@ == (ProjectionView {
                        prefix: old(self)@.prefix,
                        clauses: Seq::empty(),
                    })
                    &&& #[trigger] call_ensures(f, (nested,), ())
                    &&& r@ == old(self)@.with_clauses(final(nested)@.clauses)
                },
            *final(self) == *final(r),
    {
        let same_path = |path: &Path<F, T, T>| -> (same: Path<F, T, T>)
            ensures
                same.prefix@ == path.prefix@,
            {
                let prefix = path.prefix.clone();
                assert(prefix@ =~= path.prefix@);
                Path { prefix, _marker: std::marker::PhantomData }
            };
        self.with_lookup::<F, _, F, T, _>(same_path, f)
    }

    /// The projection document: the clauses inserted in order, so that a
    /// path's last clause gives its value and paths keep the order of their
    /// first clause.
    pub fn build(&mut self) -> (doc: bson::Document)
        ensures
            *final(self) == *old(self),
            document_entries(doc) == entries_from_pairs(old(self)@.clauses),
    {
        let mut doc = document_new();
        let n = self.clauses.len();
        let ghost cv = self@.clauses;
        let mut i: usize = 0;
        while i < n
            invariant
                n == self.clauses@.len(),
                cv == self@.clauses,
                cv.len() == n,
                0 <= i <= n,
                document_entries(doc) == entries_from_pairs(cv.take(i as int)),
            decreases n - i,
        {
            let field = self.clauses[i].0.clone();
            let value = bson_clone(&self.clauses[i].1);
            let _ = document_insert(&mut doc, field, value);
            assert(cv.take(i + 1).drop_last() =~= cv.take(i as int));
            assert(cv[i as int] == (self.clauses@[i as int].0@, self.clauses@[i as int].1));
            i = i + 1;
        }
        assert(cv.take(n as int) =~= cv);
        doc
    }
}

/// A builder with no prefix and no clauses.
pub fn empty<T>() -> (b: BasicProjectionBuilder<T>)
    ensures
        b@ == (ProjectionView { prefix: Seq::empty(), clauses: Seq::empty() }),
{
    BasicProjectionBuilder::new()
}

/// Projection of a field by any MongoDB expression, under a path given as
/// text.
pub trait ProjectionBuilder<T>: Sized {
    /// Adds the clause `path: expr`.
    fn project(&mut self, path: String, expr: bson::Bson) -> &mut Self;
}

impl<T> ProjectionBuilder<T> for BasicProjectionBuilder<T> {
    fn project(&mut self, path: String, expr: bson::Bson) -> (r: &mut Self)
        ensures
            r@ == old(self)@.with_clause(path@, expr),
            *final(self) == *final(r),
    {
        self.clauses.push((path, expr));
        assert(self@.clauses =~= old(self)@.clauses.push((path@, expr)));
        self
    }
}

} // verus!

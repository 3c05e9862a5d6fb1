//! The fields of a derived search index, and what a document puts into them.
use crate::ids::{ulid_text, ulid_text_reads_back};
use crate::index::{DocumentRecord, RecordView};
use crate::path::{optional_text, slashed, texts};
use crate::read::{passes, ReadFilter, SearchMetadataFields};
use tantivy::schema::{
    NumericOptions, Schema, SchemaBuilder, TextOptions, INDEXED, STORED, STRING, TEXT,
};
use vstd::prelude::*;
use vstd::string::*;

verus! {

/// How a field of the index is kept.
#[derive(Clone, Copy, Debug, PartialEq, Eq, Structural)]
pub enum FieldKind {
    /// One term, and stored.
    Identity,
    /// Tokenized text.
    Text,
    /// One term.
    Exact,
    /// Text that is not indexed.
    Unindexed,
    /// A truth value that is indexed.
    Flag,
    /// A truth value that is not indexed.
    UnindexedFlag,
}

/// A field: its name and how it is kept.
pub type FieldDefinition = (Seq<char>, FieldKind);

/// The type `tantivy::schema::SchemaBuilder`.
#[verifier::external_type_specification]
#[verifier::external_body]
pub struct ExSchemaBuilder(tantivy::schema::SchemaBuilder);

/// The type `tantivy::schema::Schema`.
#[verifier::external_type_specification]
#[verifier::external_body]
pub struct ExSchema(tantivy::schema::Schema);

/// The fields that a schema builder has, in the order of their numbers.
pub uninterp spec fn builder_fields(builder: tantivy::schema::SchemaBuilder) -> Seq<(Seq<char>, FieldKind)>;

/// The fields that a schema has, in the order of their numbers.
pub uninterp spec fn schema_fields(schema: tantivy::schema::Schema) -> Seq<(Seq<char>, FieldKind)>;

/// Wraps `tantivy::schema::Schema::builder`, which gives a builder without fields.
#[verifier::external_body]
fn new_builder() -> (builder: SchemaBuilder)
    ensures
        builder_fields(builder) == Seq::<FieldDefinition>::empty(),
{
    Schema::builder()
}

/// Whether a field is one of text.
pub open spec fn is_text_kind(kind: FieldKind) -> bool {
    kind != FieldKind::Flag && kind != FieldKind::UnindexedFlag
}

/// Whether a field with a name can be added to others: the name is neither empty nor taken, and
/// does not begin with a hyphen.
pub open spec fn is_new_field(fields: Seq<FieldDefinition>, name: Seq<char>) -> bool {
    &&& name.len() > 0
    &&& name[0] != '-'
    &&& fields.len() < u32::MAX
    &&& forall|i: int| 0 <= i < fields.len() ==> (#[trigger] fields[i]).0 != name
}

/// Wraps `tantivy::schema::SchemaBuilder::add_text_field`, which adds a text field under the next
/// number and gives that number.
#[verifier::external_body]
fn add_text(builder: &mut SchemaBuilder, name: &str, kind: FieldKind) -> (number: u32)
    requires
        is_text_kind(kind),
        is_new_field(builder_fields(*old(builder)), name@),
    ensures
        builder_fields(*final(builder)) == builder_fields(*old(builder)).push((name@, kind)),
        number == builder_fields(*old(builder)).len(),
{
    let options = match kind {
        FieldKind::Identity => STRING | STORED,
        FieldKind::Text => TEXT,
        FieldKind::Exact => STRING,
        _ => TextOptions::default(),
    };
    builder.add_text_field(name, options).field_id()
}

/// Wraps `tantivy::schema::SchemaBuilder::add_bool_field`, which adds a truth-value field under the
/// next number and gives that number.
#[verifier::external_body]
fn add_flag(builder: &mut SchemaBuilder, name: &str, kind: FieldKind) -> (number: u32)
    requires
        !is_text_kind(kind),
        is_new_field(builder_fields(*old(builder)), name@),
    ensures
        builder_fields(*final(builder)) == builder_fields(*old(builder)).push((name@, kind)),
        number == builder_fields(*old(builder)).len(),
{
    let options: NumericOptions = match kind {
        FieldKind::Flag => INDEXED.into(),
        _ => NumericOptions::default(),
    };
    builder.add_bool_field(name, options).field_id()
}

/// Wraps `tantivy::schema::SchemaBuilder::build`, which makes a schema of the builder's fields.
#[verifier::external_body]
fn finish(builder: SchemaBuilder) -> (schema: Schema)
    ensures
        schema_fields(schema) == builder_fields(builder),
{
    builder.build()
}

/// Text that is searched if it is selected.
pub open spec fn selected(enabled: bool) -> FieldKind {
    if enabled {
        FieldKind::Text
    } else {
        FieldKind::Unindexed
    }
}

/// The fields of the index.
pub open spec fn indexed_fields(fields: SearchMetadataFields) -> Seq<FieldDefinition> {
    seq![
        ("document_id"@, FieldKind::Identity),
        ("title"@, FieldKind::Text),
        ("body"@, FieldKind::Text),
        ("path"@, FieldKind::Text),
        ("tags"@, FieldKind::Text),
        ("exact_tags"@, FieldKind::Exact),
        ("node"@, selected(fields.node)),
        ("agent"@, selected(fields.agent)),
        ("session"@, selected(fields.session)),
        ("exact_session"@, FieldKind::Exact),
        ("request_id"@, selected(fields.request_id)),
        ("project"@, FieldKind::Exact),
        ("archived"@, FieldKind::Flag),
    ]
}

/// The fields that a query may name: those for exact filters are not among them.
pub open spec fn queried_fields(fields: SearchMetadataFields) -> Seq<FieldDefinition> {
    seq![
        ("document_id"@, FieldKind::Unindexed),
        ("title"@, FieldKind::Text),
        ("body"@, FieldKind::Text),
        ("path"@, FieldKind::Text),
        ("tags"@, FieldKind::Text),
        ("exact_tags"@, FieldKind::Unindexed),
        ("node"@, selected(fields.node)),
        ("agent"@, selected(fields.agent)),
        ("session"@, selected(fields.session)),
        ("exact_session"@, FieldKind::Unindexed),
        ("request_id"@, selected(fields.request_id)),
        ("project"@, FieldKind::Unindexed),
        ("archived"@, FieldKind::UnindexedFlag),
    ]
}

/// The numbers of the fields that are searched without being named.
pub open spec fn searched_fields(fields: SearchMetadataFields) -> Seq<u32> {
    let always = seq![1u32, 2u32, 3u32, 4u32];
    let with_node = if fields.node {
        always.push(6u32)
    } else {
        always
    };
    let with_agent = if fields.agent {
        with_node.push(7u32)
    } else {
        with_node
    };
    let with_session = if fields.session {
        with_agent.push(8u32)
    } else {
        with_agent
    };
    if fields.request_id {
        with_session.push(10u32)
    } else {
        with_session
    }
}

/// The numbers of the fields of the index.
#[derive(Debug)]
pub struct SearchFields {
    /// The stored identity.
    pub document_id: u32,
    /// The title.
    pub title: u32,
    /// The body.
    pub body: u32,
    /// The path.
    pub path: u32,
    /// The tags as text.
    pub tags: u32,
    /// The tags as terms.
    pub exact_tags: u32,
    /// The node.
    pub node: u32,
    /// The agent.
    pub agent: u32,
    /// The session as text.
    pub session: u32,
    /// The session as a term.
    pub exact_session: u32,
    /// The last request.
    pub request_id: u32,
    /// The project.
    pub project: u32,
    /// Whether the document is archived.
    pub archived: u32,
    /// The fields that are searched without being named.
    pub searchable: Vec<u32>,
}

pub(crate) proof fn field_names_differ(fields: SearchMetadataFields)
    ensures
        forall|i: int, j: int|
            0 <= i < j < 13 ==> (#[trigger] indexed_fields(fields)[i]).0 != (
            #[trigger] indexed_fields(fields)[j]).0,
        forall|i: int|
            0 <= i < 13 ==> (#[trigger] indexed_fields(fields)[i]).0.len() > 0 && indexed_fields(
                fields,
            )[i].0[0] != '-',
        forall|i: int|
            0 <= i < 13 ==> (#[trigger] indexed_fields(fields)[i]).0 == queried_fields(fields)[i].0,
{
    reveal_strlit("document_id");
    reveal_strlit("title");
    reveal_strlit("body");
    reveal_strlit("path");
    reveal_strlit("tags");
    reveal_strlit("exact_tags");
    reveal_strlit("node");
    reveal_strlit("agent");
    reveal_strlit("session");
    reveal_strlit("exact_session");
    reveal_strlit("request_id");
    reveal_strlit("project");
    reveal_strlit("archived");
    let names = indexed_fields(fields);
    assert forall|i: int, j: int| 0 <= i < j < 13 implies (#[trigger] names[i]).0 != (
    #[trigger] names[j]).0 by {
        let left = names[i].0;
        let right = names[j].0;
        if left == right {
            assert(left.len() == right.len());
            assert(left[0] == right[0]);
            assert(left[1] == right[1]);
            assert(left[2] == right[2]);
        }
    }
}

/// Adds a field of any kind.
fn add_field(builder: &mut SchemaBuilder, name: &str, kind: FieldKind) -> (number: u32)
    requires
        is_new_field(builder_fields(*old(builder)), name@),
    ensures
        builder_fields(*final(builder)) == builder_fields(*old(builder)).push((name@, kind)),
        number == builder_fields(*old(builder)).len(),
{
    match kind {
        FieldKind::Flag => add_flag(builder, name, kind),
        FieldKind::UnindexedFlag => add_flag(builder, name, kind),
        _ => add_text(builder, name, kind),
    }
}

/// Makes a schema of named fields.
fn build_schema(names: &Vec<&'static str>, kinds: &Vec<FieldKind>) -> (schema: Schema)
    requires
        names@.len() == kinds@.len(),
        names@.len() < u32::MAX,
        forall|i: int, j: int|
            0 <= i < j < names@.len() ==> (#[trigger] names@[i])@ != (#[trigger] names@[j])@,
        forall|i: int| 0 <= i < names@.len() ==> (#[trigger] names@[i])@.len() > 0 && names@[i]@[0] != '-',
    ensures
        schema_fields(schema) == Seq::new(names@.len(), |i: int| (names@[i]@, kinds@[i])),
{
    let mut builder = new_builder();
    let mut i: usize = 0;
    while i < names.len()
        invariant
            i <= names@.len() == kinds@.len(),
            names@.len() < u32::MAX,
            forall|i: int, j: int|
                0 <= i < j < names@.len() ==> (#[trigger] names@[i])@ != (#[trigger] names@[j])@,
            forall|i: int|
                0 <= i < names@.len() ==> (#[trigger] names@[i])@.len() > 0 && names@[i]@[0] != '-',
            builder_fields(builder) == Seq::new(i as nat, |j: int| (names@[j]@, kinds@[j])),
        decreases names@.len() - i,
    {
        let ghost before = builder_fields(builder);
        assert(names@[i as int]@.len() > 0);
        let _ = add_field(&mut builder, names[i], kinds[i]);
        assert(builder_fields(builder) =~= Seq::new(
            (i + 1) as nat,
            |j: int| (names@[j]@, kinds@[j]),
        ));
        i += 1;
    }
    finish(builder)
}

/// Text that is searched if it is selected.
fn optional_field(enabled: bool) -> (kind: FieldKind)
    ensures
        kind == selected(enabled),
{
    if enabled {
        FieldKind::Text
    } else {
        FieldKind::Unindexed
    }
}

/// Whether the numbers of the fields are those of the index.
pub open spec fn are_numbered(numbers: SearchFields, fields: SearchMetadataFields) -> bool {
    &&& numbers.document_id == 0
    &&& numbers.title == 1
    &&& numbers.body == 2
    &&& numbers.path == 3
    &&& numbers.tags == 4
    &&& numbers.exact_tags == 5
    &&& numbers.node == 6
    &&& numbers.agent == 7
    &&& numbers.session == 8
    &&& numbers.exact_session == 9
    &&& numbers.request_id == 10
    &&& numbers.project == 11
    &&& numbers.archived == 12
    &&& numbers.searchable@ == searched_fields(fields)
}

impl SearchFields {
    /// Makes the schema of the index, the schema of queries, and the numbers of their fields.
    pub fn schemas(metadata_fields: SearchMetadataFields) -> (result: (
        Schema,
        Schema,
        SearchFields,
    ))
        ensures
            schema_fields(result.0) == indexed_fields(metadata_fields),
            schema_fields(result.1) == queried_fields(metadata_fields),
            are_numbered(result.2, metadata_fields),
    {
        let names: Vec<&'static str> = vec![
            "document_id",
            "title",
            "body",
            "path",
            "tags",
            "exact_tags",
            "node",
            "agent",
            "session",
            "exact_session",
            "request_id",
            "project",
            "archived",
        ];
        let node = optional_field(metadata_fields.node);
        let agent = optional_field(metadata_fields.agent);
        let session = optional_field(metadata_fields.session);
        let request_id = optional_field(metadata_fields.request_id);
        let indexed: Vec<FieldKind> = vec![
            FieldKind::Identity,
            FieldKind::Text,
            FieldKind::Text,
            FieldKind::Text,
            FieldKind::Text,
            FieldKind::Exact,
            node,
            agent,
            session,
            FieldKind::Exact,
            request_id,
            FieldKind::Exact,
            FieldKind::Flag,
        ];
        let queried: Vec<FieldKind> = vec![
            FieldKind::Unindexed,
            FieldKind::Text,
            FieldKind::Text,
            FieldKind::Text,
            FieldKind::Text,
            FieldKind::Unindexed,
            node,
            agent,
            session,
            FieldKind::Unindexed,
            request_id,
            FieldKind::Unindexed,
            FieldKind::UnindexedFlag,
        ];
        proof {
            field_names_differ(metadata_fields);
            let fields = indexed_fields(metadata_fields);
            assert forall|i: int| 0 <= i < 13 implies (#[trigger] names@[i])@ == fields[i].0 by {}
        }
        let schema = build_schema(&names, &indexed);
        let query_schema = build_schema(&names, &queried);
        assert(schema_fields(schema) =~= indexed_fields(metadata_fields));
        assert(schema_fields(query_schema) =~= queried_fields(metadata_fields));
        let mut searchable: Vec<u32> = vec![1, 2, 3, 4];
        if metadata_fields.node {
            searchable.push(6);
        }
        if metadata_fields.agent {
            searchable.push(7);
        }
        if metadata_fields.session {
            searchable.push(8);
        }
        if metadata_fields.request_id {
            searchable.push(10);
        }
        assert(searchable@ =~= searched_fields(metadata_fields));
        (
            schema,
            query_schema,
            SearchFields {
                document_id: 0,
                title: 1,
                body: 2,
                path: 3,
                tags: 4,
                exact_tags: 5,
                node: 6,
                agent: 7,
                session: 8,
                exact_session: 9,
                request_id: 10,
                project: 11,
                archived: 12,
                searchable,
            },
        )
    }
}

/// What a document puts into a field, or a filter asks of one.
#[derive(Debug)]
pub enum FieldValue<T = String> {
    /// A text or a term.
    Text(T),
    /// A truth value.
    Flag(bool),
}

/// A value with its text as a sequence.
pub type ValueView = FieldValue<Seq<char>>;

impl View for FieldValue {
    type V = ValueView;

    open spec fn view(&self) -> ValueView {
        match *self {
            FieldValue::Text(text) => FieldValue::Text(text@),
            FieldValue::Flag(flag) => FieldValue::Flag(flag),
        }
    }
}

/// The value of one field.
#[derive(Debug)]
pub struct FieldEntry<V = FieldValue> {
    /// The number of the field.
    pub field: u32,
    /// The value.
    pub value: V,
}

/// An entry with its text as a sequence.
pub type EntryView = FieldEntry<ValueView>;

impl View for FieldEntry {
    type V = EntryView;

    open spec fn view(&self) -> EntryView {
        FieldEntry { field: self.field, value: self.value@ }
    }
}

/// The views of entries.
pub open spec fn entry_views(entries: Seq<FieldEntry>) -> Seq<EntryView> {
    entries.map_values(|entry: FieldEntry| entry@)
}

/// The entry of a text.
pub open spec fn text_entry(field: u32, text: Seq<char>) -> EntryView {
    FieldEntry { field, value: FieldValue::Text(text) }
}

/// Entries with one more, if there is something to add.
pub open spec fn with_optional(
    entries: Seq<EntryView>,
    field: u32,
    enabled: bool,
    text: Option<Seq<char>>,
) -> Seq<EntryView> {
    match text {
        Some(text) => if enabled {
            entries.push(text_entry(field, text))
        } else {
            entries
        },
        None => entries,
    }
}

/// The entries of the first `count` tags, each as text and as a term.
pub open spec fn tag_entries(tags: Seq<Seq<char>>, count: nat) -> Seq<EntryView>
    decreases count,
{
    if count == 0 {
        Seq::empty()
    } else {
        tag_entries(tags, (count - 1) as nat).push(text_entry(4, tags[count - 1])).push(
            text_entry(5, tags[count - 1]),
        )
    }
}

/// What a document puts into the index.
pub open spec fn document_entries(
    record: RecordView,
    body: Seq<char>,
    fields: SearchMetadataFields,
) -> Seq<EntryView> {
    let metadata = record.metadata;
    let session = match metadata.session {
        Some(session) => Some(ulid_text(session.value)),
        None => None,
    };
    let described = seq![
        text_entry(0, ulid_text(metadata.document_id.value)),
        text_entry(1, metadata.title),
        text_entry(2, body),
        text_entry(3, slashed(record.relative_path)),
    ] + tag_entries(metadata.tags, metadata.tags.len());
    let with_node = with_optional(described, 6, fields.node, metadata.node);
    let with_agent = with_optional(with_node, 7, fields.agent, metadata.agent);
    let with_session = with_optional(with_agent, 8, fields.session, session);
    let with_exact = with_optional(with_session, 9, true, session);
    let with_request = with_optional(
        with_exact,
        10,
        fields.request_id,
        Some(ulid_text(metadata.request_id.value)),
    );
    with_optional(with_request, 11, true, record.location.project).push(
        FieldEntry { field: 12, value: FieldValue::Flag(record.location.archived) },
    )
}

/// Adds the entry of a text.
fn add_entry(entries: &mut Vec<FieldEntry>, field: u32, text: String)
    ensures
        entry_views(final(entries)@) == entry_views(old(entries)@).push(text_entry(field, text@)),
{
    entries.push(FieldEntry { field, value: FieldValue::Text(text) });
    assert(entry_views(entries@) =~= entry_views(old(entries)@).push(text_entry(field, text@)));
}

/// Adds the entry of a text, if there is something to add.
fn add_optional(entries: &mut Vec<FieldEntry>, field: u32, enabled: bool, text: &Option<String>)
    ensures
        entry_views(final(entries)@) == with_optional(
            entry_views(old(entries)@),
            field,
            enabled,
            optional_text(*text),
        ),
{
    if let Some(text) = text {
        if enabled {
            add_entry(entries, field, text.clone());
        }
    }
}

impl SearchFields {
    /// What a document puts into the index.
    pub fn document(
        &self,
        record: &DocumentRecord,
        body: &str,
        metadata_fields: SearchMetadataFields,
    ) -> (entries: Vec<FieldEntry>)
        requires
            are_numbered(*self, metadata_fields),
        ensures
            entry_views(entries@) == document_entries(record@, body@, metadata_fields),
    {
        let metadata = &record.metadata;
        let mut entries: Vec<FieldEntry> = Vec::new();
        assert(entry_views(entries@) =~= Seq::<EntryView>::empty());
        add_entry(&mut entries, self.document_id, metadata.document_id.text());
        add_entry(&mut entries, self.title, metadata.title.clone());
        add_entry(&mut entries, self.body, body.to_owned());
        add_entry(&mut entries, self.path, record.relative_path.text());
        let ghost start = seq![
            text_entry(0, ulid_text(metadata.document_id.value)),
            text_entry(1, metadata.title@),
            text_entry(2, body@),
            text_entry(3, slashed(record.relative_path@)),
        ];
        let ghost tags = texts(metadata.tags@);
        assert(entry_views(entries@) =~= start + tag_entries(tags, 0));
        let mut i: usize = 0;
        while i < metadata.tags.len()
            invariant
                i <= metadata.tags@.len(),
                self.tags == 4,
                self.exact_tags == 5,
                tags == texts(metadata.tags@),
                entry_views(entries@) == start + tag_entries(tags, i as nat),
            decreases metadata.tags@.len() - i,
        {
            assert(tags[i as int] == metadata.tags@[i as int]@);
            add_entry(&mut entries, self.tags, metadata.tags[i].clone());
            add_entry(&mut entries, self.exact_tags, metadata.tags[i].clone());
            assert(entry_views(entries@) =~= start + tag_entries(tags, (i + 1) as nat));
            i += 1;
        }
        add_optional(&mut entries, self.node, metadata_fields.node, &metadata.node);
        add_optional(&mut entries, self.agent, metadata_fields.agent, &metadata.agent);
        let session: Option<String> = match metadata.session {
            Some(session) => Some(session.text()),
            None => None,
        };
        add_optional(&mut entries, self.session, metadata_fields.session, &session);
        add_optional(&mut entries, self.exact_session, true, &session);
        let request = Some(metadata.request_id.text());
        add_optional(&mut entries, self.request_id, metadata_fields.request_id, &request);
        add_optional(&mut entries, self.project, true, &record.location.project);
        let ghost before = entries@;
        entries.push(
            FieldEntry {
                field: self.archived,
                value: FieldValue::Flag(record.location.archived),
            },
        );
        assert(entry_views(entries@) =~= entry_views(before).push(
            FieldEntry { field: 12, value: FieldValue::Flag(record.location.archived) },
        ));
        entries
    }
}

/// One condition that a filter adds to a query.
#[derive(Debug)]
pub struct FilterClause<V = FieldValue> {
    /// Whether the field must have the value, or must not.
    pub required: bool,
    /// The number of the field.
    pub field: u32,
    /// The value.
    pub value: V,
}

/// A condition with its text as a sequence.
pub type ClauseView = FilterClause<ValueView>;

impl View for FilterClause {
    type V = ClauseView;

    open spec fn view(&self) -> ClauseView {
        FilterClause { required: self.required, field: self.field, value: self.value@ }
    }
}

/// The views of conditions.
pub open spec fn clause_views(clauses: Seq<FilterClause>) -> Seq<ClauseView> {
    clauses.map_values(|clause: FilterClause| clause@)
}

/// Conditions with one more, if there is something to ask.
pub open spec fn with_clause(
    clauses: Seq<ClauseView>,
    field: u32,
    text: Option<Seq<char>>,
) -> Seq<ClauseView> {
    match text {
        Some(text) => clauses.push(
            FilterClause { required: true, field, value: FieldValue::Text(text) },
        ),
        None => clauses,
    }
}

/// The conditions that a filter adds to a query.
pub open spec fn filter_clauses(filter: ReadFilter<Seq<char>>) -> Seq<ClauseView> {
    let session = match filter.session {
        Some(session) => Some(ulid_text(session.value)),
        None => None,
    };
    let selected = with_clause(
        with_clause(with_clause(Seq::empty(), 11, filter.project), 5, filter.tag),
        9,
        session,
    );
    if filter.include_archived {
        selected
    } else {
        selected.push(FilterClause { required: false, field: 12, value: FieldValue::Flag(true) })
    }
}

/// Adds a condition, if there is something to ask.
fn add_clause(clauses: &mut Vec<FilterClause>, field: u32, text: &Option<String>)
    ensures
        clause_views(final(clauses)@) == with_clause(
            clause_views(old(clauses)@),
            field,
            optional_text(*text),
        ),
{
    if let Some(text) = text {
        clauses.push(
            FilterClause { required: true, field, value: FieldValue::Text(text.clone()) },
        );
        assert(clause_views(clauses@) =~= with_clause(
            clause_views(old(clauses)@),
            field,
            Some(text@),
        ));
    }
}

impl SearchFields {
    /// The conditions that a filter adds to a query.
    pub fn filtered_query(&self, filter: &ReadFilter, metadata_fields: SearchMetadataFields) -> (result:
        Vec<FilterClause>)
        requires
            are_numbered(*self, metadata_fields),
        ensures
            clause_views(result@) == filter_clauses(filter@),
    {
        let mut clauses: Vec<FilterClause> = Vec::new();
        assert(clause_views(clauses@) =~= Seq::<ClauseView>::empty());
        add_clause(&mut clauses, self.project, &filter.project);
        add_clause(&mut clauses, self.exact_tags, &filter.tag);
        let session: Option<String> = match filter.session {
            Some(session) => Some(session.text()),
            None => None,
        };
        add_clause(&mut clauses, self.exact_session, &session);
        if !filter.include_archived {
            let ghost before = clauses@;
            clauses.push(
                FilterClause {
                    required: false,
                    field: self.archived,
                    value: FieldValue::Flag(true),
                },
            );
            assert(clause_views(clauses@) =~= clause_views(before).push(
                FilterClause { required: false, field: 12, value: FieldValue::Flag(true) },
            ));
        }
        clauses
    }
}

/// Whether the entries of a document meet a condition.
pub open spec fn meets(entries: Seq<EntryView>, clause: ClauseView) -> bool {
    let entry = FieldEntry { field: clause.field, value: clause.value };
    clause.required == entries.contains(entry)
}

/// Whether the entries of a document meet all conditions.
pub open spec fn meets_all(entries: Seq<EntryView>, clauses: Seq<ClauseView>) -> bool {
    forall|i: int| 0 <= i < clauses.len() ==> meets(entries, #[trigger] clauses[i])
}

proof fn pushed_has(entries: Seq<EntryView>, added: EntryView, entry: EntryView)
    ensures
        entries.push(added).contains(entry) <==> entries.contains(entry) || entry == added,
{
    let more = entries.push(added);
    if entries.contains(entry) {
        let i = choose|i: int| 0 <= i < entries.len() && entries[i] == entry;
        assert(more[i] == entry);
    }
    if entry == added {
        assert(more[entries.len() as int] == entry);
    }
    if more.contains(entry) {
        let i = choose|i: int| 0 <= i < more.len() && more[i] == entry;
        if i < entries.len() {
            assert(entries[i] == entry);
        }
    }
}

proof fn optional_has(
    entries: Seq<EntryView>,
    field: u32,
    enabled: bool,
    text: Option<Seq<char>>,
    entry: EntryView,
)
    ensures
        with_optional(entries, field, enabled, text).contains(entry) <==> entries.contains(entry)
            || (enabled && text is Some && entry == text_entry(field, text->0)),
{
    if let Some(value) = text {
        pushed_has(entries, text_entry(field, value), entry);
    }
}

proof fn tags_have(tags: Seq<Seq<char>>, count: nat, entry: EntryView)
    requires
        count <= tags.len(),
    ensures
        tag_entries(tags, count).contains(entry) <==> (exists|i: int|
            0 <= i < count && (entry == text_entry(4, #[trigger] tags[i]) || entry == text_entry(
                5,
                tags[i],
            ))),
    decreases count,
{
    if count > 0 {
        let earlier = tag_entries(tags, (count - 1) as nat);
        let tag = tags[count - 1];
        tags_have(tags, (count - 1) as nat, entry);
        pushed_has(earlier, text_entry(4, tag), entry);
        pushed_has(earlier.push(text_entry(4, tag)), text_entry(5, tag), entry);
    } else {
        assert(tag_entries(tags, 0) =~= Seq::<EntryView>::empty());
    }
}

proof fn document_has(
    record: RecordView,
    body: Seq<char>,
    fields: SearchMetadataFields,
    entry: EntryView,
)
    requires
        entry.field == 5 || entry.field == 9 || entry.field == 11 || entry.field == 12,
    ensures
        document_entries(record, body, fields).contains(entry) <==> {
            ||| entry.field == 5 && (entry.value matches FieldValue::Text(text)
                && record.metadata.tags.contains(text))
            ||| entry.field == 9 && (record.metadata.session matches Some(session) && entry
                == text_entry(9, ulid_text(session.value)))
            ||| entry.field == 11 && (record.location.project matches Some(project) && entry
                == text_entry(11, project))
            ||| entry == (FieldEntry {
                field: 12,
                value: ValueView::Flag(record.location.archived),
            })
        },
{
    let metadata = record.metadata;
    let session = match metadata.session {
        Some(session) => Some(ulid_text(session.value)),
        None => None,
    };
    let start = seq![
        text_entry(0, ulid_text(metadata.document_id.value)),
        text_entry(1, metadata.title),
        text_entry(2, body),
        text_entry(3, slashed(record.relative_path)),
    ];
    let tags = tag_entries(metadata.tags, metadata.tags.len());
    let described = start + tags;
    tags_have(metadata.tags, metadata.tags.len(), entry);
    assert(described.contains(entry) <==> tags.contains(entry)) by {
        if tags.contains(entry) {
            let i = choose|i: int| 0 <= i < tags.len() && tags[i] == entry;
            assert(described[4 + i] == entry);
        }
        if described.contains(entry) {
            let i = choose|i: int| 0 <= i < described.len() && described[i] == entry;
            if i < 4 {
                assert(described[i] == start[i]);
            } else {
                assert(tags[i - 4] == entry);
            }
        }
    }
    assert(tags.contains(entry) <==> entry.field == 5 && (entry.value matches FieldValue::Text(text)
        && metadata.tags.contains(text))) by {
        if entry.field == 5 {
            if let FieldValue::Text(text) = entry.value {
                if metadata.tags.contains(text) {
                    let i = choose|i: int|
                        0 <= i < metadata.tags.len() && metadata.tags[i] == text;
                    assert(entry == text_entry(5, metadata.tags[i]));
                }
            }
        }
    }
    let with_node = with_optional(described, 6, fields.node, metadata.node);
    let with_agent = with_optional(with_node, 7, fields.agent, metadata.agent);
    let with_session = with_optional(with_agent, 8, fields.session, session);
    let with_exact = with_optional(with_session, 9, true, session);
    let request = Some(ulid_text(metadata.request_id.value));
    let with_request = with_optional(with_exact, 10, fields.request_id, request);
    let with_project = with_optional(with_request, 11, true, record.location.project);
    optional_has(described, 6, fields.node, metadata.node, entry);
    optional_has(with_node, 7, fields.agent, metadata.agent, entry);
    optional_has(with_agent, 8, fields.session, session, entry);
    optional_has(with_session, 9, true, session, entry);
    optional_has(with_exact, 10, fields.request_id, request, entry);
    optional_has(with_request, 11, true, record.location.project, entry);
    pushed_has(
        with_project,
        FieldEntry { field: 12, value: FieldValue::Flag(record.location.archived) },
        entry,
    );
}

proof fn clauses_have(clauses: Seq<ClauseView>, added: ClauseView, entries: Seq<EntryView>)
    ensures
        meets_all(entries, clauses.push(added)) <==> meets_all(entries, clauses) && meets(
            entries,
            added,
        ),
{
    let more = clauses.push(added);
    if meets_all(entries, more) {
        assert(meets(entries, more[clauses.len() as int]));
        assert forall|i: int| 0 <= i < clauses.len() implies meets(
            entries,
            #[trigger] clauses[i],
        ) by {
            assert(meets(entries, more[i]));
        }
    }
    if meets_all(entries, clauses) && meets(entries, added) {
        assert forall|i: int| 0 <= i < more.len() implies meets(entries, #[trigger] more[i]) by {
            if i < clauses.len() {
                assert(meets(entries, clauses[i]));
            }
        }
    }
}

/// The conditions of a filter select exactly the documents that pass it: by project, tag and
/// session, and without archived ones unless they are asked for.
pub proof fn conditions_are_the_filter(
    record: RecordView,
    body: Seq<char>,
    fields: SearchMetadataFields,
    filter: ReadFilter<Seq<char>>,
)
    ensures
        meets_all(document_entries(record, body, fields), filter_clauses(filter)) <==> passes(
            filter,
            record,
        ),
{
    let entries = document_entries(record, body, fields);
    let none = Seq::<ClauseView>::empty();
    let with_project = with_clause(none, 11, filter.project);
    let with_tag = with_clause(with_project, 5, filter.tag);
    let session = match filter.session {
        Some(session) => Some(ulid_text(session.value)),
        None => None,
    };
    let with_session = with_clause(with_tag, 9, session);
    if let Some(project) = filter.project {
        clauses_have(
            none,
            FilterClause { required: true, field: 11, value: FieldValue::Text(project) },
            entries,
        );
        document_has(record, body, fields, text_entry(11, project));
    }
    if let Some(tag) = filter.tag {
        clauses_have(
            with_project,
            FilterClause { required: true, field: 5, value: FieldValue::Text(tag) },
            entries,
        );
        document_has(record, body, fields, text_entry(5, tag));
    }
    if let Some(sought) = filter.session {
        clauses_have(
            with_tag,
            FilterClause {
                required: true,
                field: 9,
                value: FieldValue::Text(ulid_text(sought.value)),
            },
            entries,
        );
        document_has(record, body, fields, text_entry(9, ulid_text(sought.value)));
        ulid_text_reads_back(sought.value);
        if let Some(actual) = record.metadata.session {
            ulid_text_reads_back(actual.value);
        }
    }
    if !filter.include_archived {
        clauses_have(
            with_session,
            FilterClause { required: false, field: 12, value: FieldValue::Flag(true) },
            entries,
        );
        document_has(
            record,
            body,
            fields,
            FieldEntry { field: 12, value: FieldValue::Flag(true) },
        );
    }
}

} // verus!

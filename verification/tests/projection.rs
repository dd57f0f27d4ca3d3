use bson::{Bson, Document};
use tnuctipun::field_witnesses::{FieldName, HasField};
use tnuctipun::path::Path;
use tnuctipun::projection::{empty, BasicProjectionBuilder, ProjectionBuilder};

struct Name;
impl FieldName for Name {
    fn field_name() -> &'static str {
        "name"
    }
}

struct Id;
impl FieldName for Id {
    fn field_name() -> &'static str {
        "id"
    }
}

struct Age;
impl FieldName for Age {
    fn field_name() -> &'static str {
        "age"
    }
}

struct Email;
impl FieldName for Email {
    fn field_name() -> &'static str {
        "email"
    }
}

struct Address;
impl FieldName for Address {
    fn field_name() -> &'static str {
        "address"
    }
}

struct City;
impl FieldName for City {
    fn field_name() -> &'static str {
        "city"
    }
}

struct TestStruct;

struct User;
impl HasField<Name> for User {
    type Value = String;
}
impl HasField<Id> for User {
    type Value = String;
}
impl HasField<Age> for User {
    type Value = i32;
}
impl HasField<Email> for User {
    type Value = String;
}
impl HasField<Address> for User {
    type Value = AddressDoc;
}

struct AddressDoc;
impl HasField<City> for AddressDoc {
    type Value = String;
}

fn prefixed(parts: &[&str]) -> BasicProjectionBuilder<TestStruct> {
    BasicProjectionBuilder::with_prefix(parts.iter().map(|p| p.to_string()).collect())
}

fn keys(doc: &Document) -> Vec<String> {
    doc.keys().cloned().collect()
}

#[test]
fn test_field_path_empty_prefix() {
    let builder = empty::<TestStruct>();

    let path = builder.field_path::<Name>();
    assert_eq!(path, "name");

    let path = builder.field_path::<Id>();
    assert_eq!(path, "id");

    let path = builder.field_path::<Age>();
    assert_eq!(path, "age");

    let path = builder.field_path::<Email>();
    assert_eq!(path, "email");
}

#[test]
fn test_field_path_single_prefix() {
    let builder = prefixed(&["user"]);

    let path = builder.field_path::<Name>();
    assert_eq!(path, "user.name");

    let path = builder.field_path::<Id>();
    assert_eq!(path, "user.id");
}

#[test]
fn test_field_path_multiple_prefixes() {
    let builder = prefixed(&["profile", "address"]);

    let path = builder.field_path::<Name>();
    assert_eq!(path, "profile.address.name");

    let path = builder.field_path::<Age>();
    assert_eq!(path, "profile.address.age");
}

#[test]
fn test_field_path_deeply_nested_prefix() {
    let builder = prefixed(&["collection", "documents", "user_data", "profile"]);

    let path = builder.field_path::<Name>();
    assert_eq!(path, "collection.documents.user_data.profile.name");
}

#[test]
fn test_field_path_consistency_across_multiple_calls() {
    let builder = prefixed(&["test"]);

    let path1 = builder.field_path::<Name>();
    let path2 = builder.field_path::<Name>();
    let path3 = builder.field_path::<Name>();

    assert_eq!(path1, path2);
    assert_eq!(path2, path3);
    assert_eq!(path1, "test.name");
}

#[test]
fn test_field_path_special_characters_in_prefix() {
    let builder = prefixed(&["test-prefix", "sub_field"]);

    let path = builder.field_path::<Email>();
    assert_eq!(path, "test-prefix.sub_field.email");
}

#[test]
fn test_field_path_empty_string_prefix() {
    let builder = prefixed(&[""]);

    let path = builder.field_path::<Name>();
    assert_eq!(path, ".name");
}

#[test]
fn test_field_path_mixed_prefix_types() {
    let builder = prefixed(&["root", "nested_object", "array_element"]);

    let path = builder.field_path::<Id>();
    assert_eq!(path, "root.nested_object.array_element.id");

    let path = builder.field_path::<Email>();
    assert_eq!(path, "root.nested_object.array_element.email");
}

#[test]
fn test_field_path_with_numeric_string_prefix() {
    let builder = prefixed(&["users", "0"]);

    let path = builder.field_path::<Name>();
    assert_eq!(path, "users.0.name");
}

#[test]
fn test_field_path_different_field_types() {
    let builder = prefixed(&["common"]);

    let name_path = builder.field_path::<Name>();
    let id_path = builder.field_path::<Id>();
    let age_path = builder.field_path::<Age>();
    let email_path = builder.field_path::<Email>();

    assert_eq!(name_path, "common.name");
    assert_eq!(id_path, "common.id");
    assert_eq!(age_path, "common.age");
    assert_eq!(email_path, "common.email");

    let paths = [name_path, id_path, age_path, email_path];
    let unique_paths: std::collections::HashSet<_> = paths.iter().collect();

    assert_eq!(unique_paths.len(), 4);
}

#[test]
fn field_path_of_joins_prefix_and_name() {
    let builder = prefixed(&["a", "b"]);
    assert_eq!(builder.field_path_of("c"), "a.b.c");
    let plain = empty::<TestStruct>();
    assert_eq!(plain.field_path_of("c"), "c");
    assert_eq!(plain.field_path_of(""), "");
}

#[test]
fn new_default_and_empty_build_empty_documents() {
    assert!(BasicProjectionBuilder::<User>::new().build().is_empty());
    assert!(BasicProjectionBuilder::<User>::default().build().is_empty());
    assert!(empty::<User>().build().is_empty());
}

#[test]
fn includes_and_excludes_build_flags_in_order() {
    let doc = empty::<User>()
        .includes::<Name>()
        .includes::<Age>()
        .excludes::<Email>()
        .build();
    assert_eq!(keys(&doc), vec!["name", "age", "email"]);
    assert_eq!(doc.get("name"), Some(&Bson::Int32(1)));
    assert_eq!(doc.get("age"), Some(&Bson::Int32(1)));
    assert_eq!(doc.get("email"), Some(&Bson::Int32(0)));
}

#[test]
fn excludes_alone() {
    let doc = empty::<User>().excludes::<Email>().build();
    assert_eq!(keys(&doc), vec!["email"]);
    assert_eq!(doc.get("email"), Some(&Bson::Int32(0)));
}

#[test]
fn last_clause_for_a_field_wins_and_keeps_first_place() {
    let doc = empty::<User>()
        .includes::<Name>()
        .includes::<Age>()
        .excludes::<Name>()
        .build();
    assert_eq!(keys(&doc), vec!["name", "age"]);
    assert_eq!(doc.get("name"), Some(&Bson::Int32(0)));
    assert_eq!(doc.get("age"), Some(&Bson::Int32(1)));
}

#[test]
fn includes_under_a_prefix_uses_the_dotted_path() {
    let mut builder = BasicProjectionBuilder::<User>::with_prefix(vec!["user".to_string()]);
    let doc = builder.includes::<Name>().build();
    assert_eq!(keys(&doc), vec!["user.name"]);
    assert_eq!(doc.get("user.name"), Some(&Bson::Int32(1)));
}

#[test]
fn with_field_equals_direct_calls() {
    let doc1 = empty::<User>()
        .with_field::<Name, _>(|nested| {
            nested.includes::<Name>();
        })
        .build();
    let doc2 = empty::<User>().includes::<Name>().build();
    assert_eq!(doc1, doc2);
    assert_eq!(keys(&doc1), keys(&doc2));

    let doc3 = empty::<User>()
        .with_field::<Name, _>(|nested| {
            nested.includes::<Name>().excludes::<Email>();
        })
        .build();
    assert_eq!(keys(&doc3), vec!["name", "email"]);
    assert_eq!(doc3.get("email"), Some(&Bson::Int32(0)));
}

#[test]
fn with_field_appends_after_existing_clauses() {
    let doc = empty::<User>()
        .includes::<Age>()
        .with_field::<Name, _>(|nested| {
            nested.excludes::<Name>();
        })
        .build();
    assert_eq!(keys(&doc), vec!["age", "name"]);
    assert_eq!(doc.get("name"), Some(&Bson::Int32(0)));
}

#[test]
fn with_lookup_projects_under_the_resolved_path() {
    let doc = empty::<User>()
        .with_lookup::<Address, _, City, AddressDoc, _>(
            |path: &Path<Address, User, User>| {
                let mut prefix = path.prefix.clone();
                prefix.push(Address::field_name().to_string());
                Path { prefix, _marker: std::marker::PhantomData }
            },
            |nested| {
                nested.includes::<City>();
            },
        )
        .build();
    assert_eq!(keys(&doc), vec!["address.city"]);
    assert_eq!(doc.get("address.city"), Some(&Bson::Int32(1)));
}

#[test]
fn with_lookup_sees_the_builder_prefix() {
    let mut builder = BasicProjectionBuilder::<User>::with_prefix(vec!["root".to_string()]);
    let doc = builder
        .with_lookup::<Address, _, City, AddressDoc, _>(
            |path: &Path<Address, User, User>| {
                assert_eq!(path.prefix, vec!["root".to_string()]);
                let mut prefix = path.prefix.clone();
                prefix.push("address".to_string());
                Path { prefix, _marker: std::marker::PhantomData }
            },
            |nested| {
                nested.includes::<City>().excludes::<City>();
            },
        )
        .build();
    assert_eq!(keys(&doc), vec!["root.address.city"]);
    assert_eq!(doc.get("root.address.city"), Some(&Bson::Int32(0)));
}

#[test]
fn project_adds_custom_expressions() {
    let mut builder = empty::<()>();
    let mut upper = Document::new();
    upper.insert("$toUpper", "$name");
    builder.project("name".to_string(), Bson::Document(upper.clone()));
    builder.project("count".to_string(), Bson::Int64(5));
    let doc = builder.build();
    assert_eq!(keys(&doc), vec!["name", "count"]);
    assert_eq!(doc.get("name"), Some(&Bson::Document(upper)));
    assert_eq!(doc.get("count"), Some(&Bson::Int64(5)));
}

#[test]
fn project_mixes_with_typed_clauses() {
    let mut builder = empty::<User>();
    builder.includes::<Name>();
    builder.project("name".to_string(), Bson::String("x".to_string()));
    let doc = builder.build();
    assert_eq!(keys(&doc), vec!["name"]);
    assert_eq!(doc.get("name"), Some(&Bson::String("x".to_string())));
}

#[test]
fn build_leaves_the_builder_unchanged() {
    let mut builder = empty::<User>();
    builder.includes::<Name>().excludes::<Id>();
    let first = builder.build();
    let second = builder.build();
    assert_eq!(first, second);
    assert_eq!(keys(&first), keys(&second));
    builder.includes::<Age>();
    let third = builder.build();
    assert_eq!(keys(&third), vec!["name", "id", "age"]);
}

#[test]
fn with_field_outcome_does_not_depend_on_the_field_type() {
    let mut b1 = BasicProjectionBuilder::<User>::with_prefix(vec!["p".to_string()]);
    let mut b2 = BasicProjectionBuilder::<User>::with_prefix(vec!["p".to_string()]);
    b1.includes::<Id>();
    b2.includes::<Id>();
    let doc1 = b1
        .with_field::<Name, _>(|nested| {
            nested.excludes::<Email>().includes::<Age>();
        })
        .build();
    let doc2 = b2
        .with_field::<Email, _>(|nested| {
            nested.excludes::<Email>().includes::<Age>();
        })
        .build();
    assert_eq!(doc1, doc2);
    assert_eq!(keys(&doc1), vec!["p.id", "p.email", "p.age"]);
    assert_eq!(keys(&doc2), keys(&doc1));
}

#[test]
fn with_field_under_a_prefix_equals_direct_calls() {
    let mut b1 = BasicProjectionBuilder::<User>::with_prefix(vec!["p".to_string()]);
    let mut b2 = BasicProjectionBuilder::<User>::with_prefix(vec!["p".to_string()]);
    let doc1 = b1
        .with_field::<Name, _>(|nested| {
            nested.includes::<Name>().excludes::<Email>();
        })
        .build();
    let doc2 = b2.includes::<Name>().excludes::<Email>().build();
    assert_eq!(doc1, doc2);
    assert_eq!(keys(&doc1), vec!["p.name", "p.email"]);
    assert_eq!(keys(&doc1), keys(&doc2));
}

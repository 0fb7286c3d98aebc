use record_delete::database::Database;
use record_delete::database::Link;
use record_delete::database::Row;
use record_delete::error::SqlError;
use record_delete::execute;
use record_delete::record::Record;
use record_delete::record::RecordFinder;
use record_delete::schema::Model;
use record_delete::schema::Relation;
use record_delete::schema::Schema;

const USER: u64 = 1;
const POST: u64 = 2;

fn blog_schema() -> Schema {
    Schema {
        models: vec![
            Model { id: USER, name: String::from("User"), id_field: 0, n_fields: 2 },
            Model { id: POST, name: String::from("Post"), id_field: 0, n_fields: 2 },
        ],
        relations: vec![
            // Post.authorId -> User.id, required on the post's side.
            Relation {
                id: 10,
                name: String::from("PostToUser"),
                parent_model: USER,
                child_model: POST,
                child_requires_parent: true,
                parent_requires_child: false,
            },
        ],
    }
}

fn user_row(key: u64, extra: u64) -> Row {
    Row { model: USER, record: Record { fields: vec![key, extra] } }
}

fn post_row(key: u64, extra: u64) -> Row {
    Row { model: POST, record: Record { fields: vec![key, extra] } }
}

fn user_by_id(key: u64) -> RecordFinder {
    RecordFinder { model: USER, field: 0, value: key }
}

#[test]
fn missing_record_reports_not_found() {
    let schema = blog_schema();
    let mut db = Database { rows: vec![user_row(100, 7)], links: vec![] };
    let res = execute(&mut db, &schema, &user_by_id(999));
    match res {
        Err(SqlError::RecordNotFound { finder }) => {
            assert_eq!(finder.model_name, "User");
            assert_eq!(finder.field, 0);
            assert_eq!(finder.value, 999);
        },
        _ => panic!("expected a not-found error"),
    }
    assert_eq!(db.rows.len(), 1);
    assert_eq!(db.rows[0].record.fields, vec![100, 7]);
}

#[test]
fn missing_record_fails_the_same_way_twice() {
    let schema = blog_schema();
    let mut db = Database { rows: vec![user_row(100, 7)], links: vec![] };
    let finder = user_by_id(999);
    let first = execute(&mut db, &schema, &finder);
    let second = execute(&mut db, &schema, &finder);
    assert!(matches!(first, Err(SqlError::RecordNotFound { .. })));
    assert!(matches!(second, Err(SqlError::RecordNotFound { .. })));
    assert_eq!(db.rows.len(), 1);
    assert_eq!(db.links.len(), 0);
}

#[test]
fn referenced_user_cannot_be_deleted() {
    let schema = blog_schema();
    let mut db = Database {
        rows: vec![user_row(100, 7), post_row(200, 100)],
        links: vec![Link { relation: 10, parent_id: 100, child_id: 200 }],
    };
    let res = execute(&mut db, &schema, &user_by_id(100));
    match res {
        Err(SqlError::RelationViolation { relation_name, model_a_name, model_b_name }) => {
            assert_eq!(relation_name, "PostToUser");
            assert_eq!(model_a_name, "User");
            assert_eq!(model_b_name, "Post");
        },
        _ => panic!("expected a relation violation"),
    }
    // The probe ran before any write: nothing was deleted.
    assert_eq!(db.rows.len(), 2);
    assert_eq!(db.links.len(), 1);
}

#[test]
fn unreferenced_user_is_deleted_and_returned() {
    let schema = blog_schema();
    let mut db = Database {
        rows: vec![user_row(100, 7), user_row(101, 8), post_row(200, 101)],
        links: vec![Link { relation: 10, parent_id: 101, child_id: 200 }],
    };
    let res = execute(&mut db, &schema, &user_by_id(100));
    match res {
        Ok(record) => {
            // The pre-deletion snapshot, fields unchanged by the deletion.
            assert_eq!(record.fields, vec![100, 7]);
        },
        _ => panic!("expected success"),
    }
    assert_eq!(db.rows.len(), 2);
    assert_eq!(db.rows[0].record.fields, vec![101, 8]);
    assert_eq!(db.rows[1].record.fields, vec![200, 101]);
    // The other user's link is untouched.
    assert_eq!(db.links.len(), 1);
}

#[test]
fn delete_cleans_up_optional_links() {
    // The relation does not protect the user, but the link rows referencing
    // the deleted row must go with it.
    let mut schema = blog_schema();
    schema.relations[0].child_requires_parent = false;
    let mut db = Database {
        rows: vec![user_row(100, 7), post_row(200, 100)],
        links: vec![
            Link { relation: 10, parent_id: 100, child_id: 200 },
            Link { relation: 10, parent_id: 101, child_id: 201 },
        ],
    };
    let res = execute(&mut db, &schema, &user_by_id(100));
    assert!(res.is_ok());
    assert_eq!(db.rows.len(), 1);
    assert_eq!(db.links, vec![Link { relation: 10, parent_id: 101, child_id: 201 }]);
}

#[test]
fn equal_key_in_another_model_survives() {
    let schema = blog_schema();
    let mut db = Database { rows: vec![user_row(100, 7), post_row(100, 55)], links: vec![] };
    let res = execute(&mut db, &schema, &user_by_id(100));
    assert!(res.is_ok());
    // The post sharing the key value 100 belongs to another model and stays.
    assert_eq!(db.rows.len(), 1);
    assert_eq!(db.rows[0].model, POST);
    assert_eq!(db.rows[0].record.fields, vec![100, 55]);
}

#[test]
fn first_violated_relation_in_schema_order_is_reported() {
    let mut schema = blog_schema();
    schema.relations.push(Relation {
        id: 11,
        name: String::from("ProfileToUser"),
        parent_model: USER,
        child_model: POST,
        child_requires_parent: true,
        parent_requires_child: false,
    });
    let mut db = Database {
        rows: vec![user_row(100, 7)],
        links: vec![
            // Both relations still reference the user; the earlier one wins.
            Link { relation: 11, parent_id: 100, child_id: 201 },
            Link { relation: 10, parent_id: 100, child_id: 200 },
        ],
    };
    let res = execute(&mut db, &schema, &user_by_id(100));
    match res {
        Err(SqlError::RelationViolation { relation_name, .. }) => {
            assert_eq!(relation_name, "PostToUser");
        },
        _ => panic!("expected a relation violation"),
    }
}

#[test]
fn required_child_cannot_be_deleted_either() {
    let mut schema = blog_schema();
    // The user must keep this post: deleting the post is the violation.
    schema.relations[0].child_requires_parent = false;
    schema.relations[0].parent_requires_child = true;
    let mut db = Database {
        rows: vec![user_row(100, 7), post_row(200, 100)],
        links: vec![Link { relation: 10, parent_id: 100, child_id: 200 }],
    };
    let by_id = RecordFinder { model: POST, field: 0, value: 200 };
    let res = execute(&mut db, &schema, &by_id);
    match res {
        Err(SqlError::RelationViolation { relation_name, .. }) => {
            assert_eq!(relation_name, "PostToUser");
        },
        _ => panic!("expected a relation violation"),
    }
    assert_eq!(db.rows.len(), 2);
}

#[test]
fn finder_can_use_any_field() {
    let schema = blog_schema();
    let mut db = Database { rows: vec![user_row(100, 7), user_row(101, 9)], links: vec![] };
    let by_extra = RecordFinder { model: USER, field: 1, value: 9 };
    let res = execute(&mut db, &schema, &by_extra);
    match res {
        Ok(record) => assert_eq!(record.fields, vec![101, 9]),
        _ => panic!("expected success"),
    }
    assert_eq!(db.rows.len(), 1);
    assert_eq!(db.rows[0].record.fields, vec![100, 7]);
}

use record_delete::database::Database;
use record_delete::database::Link;
use record_delete::database::Row;
use record_delete::error::SqlError;
use record_delete::execute_nested;
use record_delete::query::NestedActions;
use record_delete::record::Record;
use record_delete::record::RecordFinder;
use record_delete::schema::Model;
use record_delete::schema::Relation;
use record_delete::schema::Schema;

const POST: u64 = 2;
const COMMENT: u64 = 3;
const LIKE: u64 = 4;

// Post.comments: a comment references its post; the post is not required
// to keep comments, nor a comment its likes unless a test says so.
fn forum_schema() -> Schema {
    Schema {
        models: vec![
            Model { id: POST, name: String::from("Post"), id_field: 0, n_fields: 2 },
            Model { id: COMMENT, name: String::from("Comment"), id_field: 0, n_fields: 2 },
            Model { id: LIKE, name: String::from("Like"), id_field: 0, n_fields: 2 },
        ],
        relations: vec![
            Relation {
                id: 20,
                name: String::from("CommentToPost"),
                parent_model: POST,
                child_model: COMMENT,
                child_requires_parent: false,
                parent_requires_child: false,
            },
            Relation {
                id: 30,
                name: String::from("LikeToComment"),
                parent_model: COMMENT,
                child_model: LIKE,
                child_requires_parent: false,
                parent_requires_child: false,
            },
        ],
    }
}

fn post_row(key: u64, extra: u64) -> Row {
    Row { model: POST, record: Record { fields: vec![key, extra] } }
}

fn comment_row(key: u64, extra: u64) -> Row {
    Row { model: COMMENT, record: Record { fields: vec![key, extra] } }
}

fn like_row(key: u64, extra: u64) -> Row {
    Row { model: LIKE, record: Record { fields: vec![key, extra] } }
}

fn comment_by_id(key: u64) -> RecordFinder {
    RecordFinder { model: COMMENT, field: 0, value: key }
}

#[test]
fn explicit_finder_matching_nothing_reports_not_found() {
    let schema = forum_schema();
    let rel = &schema.relations[0];
    let actions = NestedActions::new(&schema, rel);
    let mut db = Database {
        rows: vec![post_row(200, 0), comment_row(300, 1)],
        links: vec![Link { relation: 20, parent_id: 200, child_id: 300 }],
    };
    let res = execute_nested(&mut db, &schema, 200, &actions, &Some(comment_by_id(999)), rel);
    match res {
        Err(SqlError::RecordNotFound { finder }) => {
            assert_eq!(finder.model_name, "Comment");
            assert_eq!(finder.value, 999);
        },
        _ => panic!("expected a not-found error"),
    }
    assert_eq!(db.rows.len(), 2);
    assert_eq!(db.links.len(), 1);
}

#[test]
fn unconnected_child_reports_not_connected_with_parent() {
    let schema = forum_schema();
    let rel = &schema.relations[0];
    let actions = NestedActions::new(&schema, rel);
    // Comment 300 exists but hangs under post 201, not under post 200.
    let mut db = Database {
        rows: vec![post_row(200, 0), post_row(201, 0), comment_row(300, 1)],
        links: vec![Link { relation: 20, parent_id: 201, child_id: 300 }],
    };
    let res = execute_nested(&mut db, &schema, 200, &actions, &Some(comment_by_id(300)), rel);
    match res {
        Err(
            SqlError::RecordsNotConnected {
                relation_name,
                parent_name,
                parent_where,
                child_name,
                child_where,
            },
        ) => {
            assert_eq!(relation_name, "CommentToPost");
            assert_eq!(parent_name, "Post");
            let pw = parent_where.expect("the parent descriptor must be attached");
            assert_eq!(pw.model_name, "Post");
            assert_eq!(pw.value, 200);
            assert_eq!(child_name, "Comment");
            let cw = child_where.expect("the child finder must be restated");
            assert_eq!(cw.model_name, "Comment");
            assert_eq!(cw.value, 300);
        },
        _ => panic!("expected a not-connected error"),
    }
    assert_eq!(db.rows.len(), 3);
    assert_eq!(db.links.len(), 1);
}

#[test]
fn childless_parent_reports_not_connected() {
    let schema = forum_schema();
    let rel = &schema.relations[0];
    let actions = NestedActions::new(&schema, rel);
    let mut db = Database { rows: vec![post_row(200, 0)], links: vec![] };
    let res = execute_nested(&mut db, &schema, 200, &actions, &None, rel);
    match res {
        Err(SqlError::RecordsNotConnected { relation_name, parent_where, child_where, .. }) => {
            assert_eq!(relation_name, "CommentToPost");
            assert_eq!(parent_where.expect("parent descriptor").value, 200);
            assert!(child_where.is_none());
        },
        _ => panic!("expected a not-connected error"),
    }
    assert_eq!(db.rows.len(), 1);
}

#[test]
fn without_finder_the_first_connected_child_goes() {
    let schema = forum_schema();
    let rel = &schema.relations[0];
    let actions = NestedActions::new(&schema, rel);
    let mut db = Database {
        rows: vec![post_row(200, 0), comment_row(300, 1), comment_row(301, 2)],
        links: vec![
            Link { relation: 20, parent_id: 200, child_id: 300 },
            Link { relation: 20, parent_id: 200, child_id: 301 },
        ],
    };
    let res = execute_nested(&mut db, &schema, 200, &actions, &None, rel);
    assert!(res.is_ok());
    // The first link in store order names comment 300; 301 survives.
    assert_eq!(db.rows.len(), 2);
    assert_eq!(db.rows[1].record.fields, vec![301, 2]);
    assert_eq!(db.links, vec![Link { relation: 20, parent_id: 200, child_id: 301 }]);
}

#[test]
fn explicit_finder_picks_its_own_child() {
    let schema = forum_schema();
    let rel = &schema.relations[0];
    let actions = NestedActions::new(&schema, rel);
    let mut db = Database {
        rows: vec![post_row(200, 0), comment_row(300, 1), comment_row(301, 2)],
        links: vec![
            Link { relation: 20, parent_id: 200, child_id: 300 },
            Link { relation: 20, parent_id: 200, child_id: 301 },
        ],
    };
    let res = execute_nested(&mut db, &schema, 200, &actions, &Some(comment_by_id(301)), rel);
    assert!(res.is_ok());
    assert_eq!(db.rows.len(), 2);
    assert_eq!(db.rows[1].record.fields, vec![300, 1]);
    assert_eq!(db.links, vec![Link { relation: 20, parent_id: 200, child_id: 300 }]);
}

#[test]
fn required_dependents_block_a_nested_delete() {
    let mut schema = forum_schema();
    // A like must keep its comment.
    schema.relations[1].child_requires_parent = true;
    let rel = &schema.relations[0];
    let actions = NestedActions::new(&schema, rel);
    let mut db = Database {
        rows: vec![post_row(200, 0), comment_row(300, 1), like_row(400, 300)],
        links: vec![
            Link { relation: 20, parent_id: 200, child_id: 300 },
            Link { relation: 30, parent_id: 300, child_id: 400 },
        ],
    };
    let res = execute_nested(&mut db, &schema, 200, &actions, &Some(comment_by_id(300)), rel);
    match res {
        Err(SqlError::RelationViolation { relation_name, model_a_name, model_b_name }) => {
            assert_eq!(relation_name, "LikeToComment");
            assert_eq!(model_a_name, "Comment");
            assert_eq!(model_b_name, "Like");
        },
        _ => panic!("expected a relation violation"),
    }
    assert_eq!(db.rows.len(), 3);
    assert_eq!(db.links.len(), 2);
}

#[test]
fn nested_delete_cleans_up_the_connecting_link_only() {
    let schema = forum_schema();
    let rel = &schema.relations[0];
    let actions = NestedActions::new(&schema, rel);
    let mut db = Database {
        rows: vec![post_row(200, 0), comment_row(300, 1), like_row(400, 300)],
        links: vec![
            Link { relation: 20, parent_id: 200, child_id: 300 },
            Link { relation: 30, parent_id: 300, child_id: 400 },
        ],
    };
    let res = execute_nested(&mut db, &schema, 200, &actions, &None, rel);
    assert!(res.is_ok());
    // The comment and every link it took part in are gone; the like row
    // itself stays (its relation was optional).
    assert_eq!(db.rows.len(), 2);
    assert_eq!(db.rows[1].record.fields, vec![400, 300]);
    assert_eq!(db.links.len(), 0);
}

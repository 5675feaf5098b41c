use pg_crud::status::{created, deleted, updated};

#[test]
fn one_row_created() {
    assert_eq!(
        created(1, "William C. Canin"),
        "Registry \"William C. Canin\", created!"
    );
}

#[test]
fn no_row_created() {
    assert_eq!(created(0, "William C. Canin"), "No records have been created!");
}

#[test]
fn more_than_one_row_created_is_no_success() {
    assert_eq!(created(2, "a"), "No records have been created!");
    assert_eq!(created(u64::MAX, "a"), "No records have been created!");
}

#[test]
fn one_row_updated() {
    assert_eq!(updated(1, 1), "Registry id: 1, updated!!");
    assert_eq!(updated(1, -12), "Registry id: -12, updated!!");
}

#[test]
fn no_row_updated() {
    assert_eq!(updated(0, 1), "No records have been updated!");
}

#[test]
fn more_than_one_row_updated_is_no_success() {
    assert_eq!(updated(2, 1), "No records have been updated!");
    assert_eq!(updated(u64::MAX, 1), "No records have been updated!");
}

#[test]
fn one_row_deleted() {
    assert_eq!(deleted(1, 1), "Registry id: 1, deleted!");
    assert_eq!(deleted(1, 2147483647), "Registry id: 2147483647, deleted!");
}

#[test]
fn no_row_deleted() {
    assert_eq!(deleted(0, 1), "No records were deleted!");
}

#[test]
fn more_than_one_row_deleted_is_no_success() {
    assert_eq!(deleted(2, 1), "No records were deleted!");
    assert_eq!(deleted(u64::MAX, 1), "No records were deleted!");
}

#[test]
fn the_created_name_is_quoted_as_given() {
    assert_eq!(created(1, ""), "Registry \"\", created!");
    assert_eq!(created(1, "  padded "), "Registry \"  padded \", created!");
}

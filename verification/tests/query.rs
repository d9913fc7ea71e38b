use userservice::error::ErrorKind;
use userservice::messages::BppUser;
use userservice::models::User;
use userservice::query::{filter_users, users_listing, SortingFields, UserFilter, UserQuery};
use userservice::time::Timestamp;

fn user(channel_id: &str, display_name: &str, hours_seconds: i64, hours_nanos: i32, money: i64) -> User {
    User::new(
        channel_id.to_string(),
        display_name.to_string(),
        hours_seconds,
        hours_nanos,
        money,
        Timestamp::new(0, 0),
        Timestamp::new(0, 0),
    )
}

fn users() -> Vec<User> {
    vec![
        user("a", "Ann", 50, 0, 300),
        user("b", "Bob", 10, 0, 100),
        user("c", "Ann", 50, 1, 200),
        user("d", "Dan", 20, 0, 300),
        user("e", "Eve", 10, 0, 50),
    ]
}

fn query(filters: Vec<UserFilter>, sorting: SortingFields) -> UserQuery {
    UserQuery { filters, sorting }
}

#[test]
fn a_request_with_a_missing_filter_is_refused() {
    let filters = vec![Some(UserFilter::Hours(3)), None];
    assert_eq!(UserQuery::new(&filters, Some(SortingFields::Default)), Err(ErrorKind::ValidationFailure));
}

#[test]
fn a_request_with_an_unknown_order_is_refused() {
    assert_eq!(UserQuery::new(&vec![], None), Err(ErrorKind::ValidationFailure));
    assert_eq!(
        UserQuery::new(&vec![Some(UserFilter::Money(1))], None),
        Err(ErrorKind::ValidationFailure)
    );
}

#[test]
fn a_well_formed_request_becomes_a_query() {
    let filters = vec![Some(UserFilter::Name("Ann".to_string())), Some(UserFilter::Money(5))];
    assert_eq!(
        UserQuery::new(&filters, Some(SortingFields::MoneyDesc)),
        Ok(query(
            vec![UserFilter::Name("Ann".to_string()), UserFilter::Money(5)],
            SortingFields::MoneyDesc
        ))
    );
    assert_eq!(
        UserQuery::new(&vec![], Some(SortingFields::Default)),
        Ok(query(vec![], SortingFields::Default))
    );
}

#[test]
fn each_filter_compares_its_field() {
    let ann = user("a", "Ann", 50, 7, 300);
    assert!(UserFilter::ChannelId("a".to_string()).matches(&ann));
    assert!(!UserFilter::ChannelId("Ann".to_string()).matches(&ann));
    assert!(UserFilter::Name("Ann".to_string()).matches(&ann));
    assert!(!UserFilter::Name("a".to_string()).matches(&ann));
    assert!(UserFilter::Hours(50).matches(&ann));
    assert!(!UserFilter::Hours(51).matches(&ann));
    assert!(UserFilter::Money(300).matches(&ann));
    assert!(!UserFilter::Money(50).matches(&ann));
    assert!(query(vec![], SortingFields::Default).matches(&ann));
    assert!(query(vec![UserFilter::Hours(50), UserFilter::Money(300)], SortingFields::Default).matches(&ann));
    assert!(!query(vec![UserFilter::Hours(50), UserFilter::Money(1)], SortingFields::Default).matches(&ann));
}

#[test]
fn without_an_order_users_are_listed_as_handed_in() {
    assert_eq!(filter_users(&users(), &query(vec![], SortingFields::Default)), vec![0, 1, 2, 3, 4]);
    assert_eq!(
        filter_users(&users(), &query(vec![UserFilter::Name("Ann".to_string())], SortingFields::Default)),
        vec![0, 2]
    );
    assert_eq!(
        filter_users(
            &users(),
            &query(
                vec![UserFilter::Name("Ann".to_string()), UserFilter::Money(200)],
                SortingFields::Default
            )
        ),
        vec![2]
    );
    assert_eq!(
        filter_users(&users(), &query(vec![UserFilter::ChannelId("zz".to_string())], SortingFields::HoursAsc)),
        Vec::<usize>::new()
    );
    assert_eq!(filter_users(&vec![], &query(vec![], SortingFields::MoneyDesc)), Vec::<usize>::new());
}

#[test]
fn users_are_sorted_by_watch_time() {
    assert_eq!(filter_users(&users(), &query(vec![], SortingFields::HoursAsc)), vec![1, 4, 3, 0, 2]);
    assert_eq!(filter_users(&users(), &query(vec![], SortingFields::HoursDesc)), vec![2, 0, 3, 1, 4]);
}

#[test]
fn users_are_sorted_by_balance() {
    assert_eq!(filter_users(&users(), &query(vec![], SortingFields::MoneyAsc)), vec![4, 1, 2, 0, 3]);
    assert_eq!(filter_users(&users(), &query(vec![], SortingFields::MoneyDesc)), vec![0, 3, 2, 1, 4]);
    assert_eq!(
        filter_users(&users(), &query(vec![UserFilter::Hours(10)], SortingFields::MoneyAsc)),
        vec![4, 1]
    );
}

#[test]
fn a_listing_reports_its_length() {
    let shown = BppUser {
        channel_id: "a".to_string(),
        display_name: "Ann".to_string(),
        hours: None,
        money: 0,
        first_seen_at: None,
        last_seen_at: None,
        groups: vec![],
        permissions: vec![],
        rank: "default".to_string(),
    };
    let listing = users_listing(vec![shown.clone(), shown.clone(), shown.clone()]);
    assert_eq!(listing.count, 3);
    assert_eq!(listing.users, vec![shown.clone(), shown.clone(), shown]);
    assert_eq!(users_listing(vec![]).count, 0);
}

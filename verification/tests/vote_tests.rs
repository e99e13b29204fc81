use guildbot::vote::Vote;

#[test]
fn new_vote_starts_at_zero() {
    let v = Vote::new(3, 1000);
    assert_eq!(v.id, 3);
    assert_eq!(v.end_time, 1000);
    assert_eq!(v.casual_yes, 0);
    assert_eq!(v.casual_no, 0);
    assert_eq!(v.comp_yes, 0);
    assert_eq!(v.comp_no, 0);
}

#[test]
fn total_sums_both_role_categories() {
    let v = Vote {
        id: 1,
        casual_yes: 2,
        casual_no: 3,
        comp_yes: 5,
        comp_no: 7,
        end_time: 99,
    };
    assert_eq!(v.total(), (7, 10));
}

use chrono::{NaiveDate, NaiveDateTime};

use chronogrog::resources::{Resource, ResourceTracker, ResourceType};
use chronogrog::time::{DateTime, Duration, Period};

fn at(y: i32, m: u32, d: u32, h: u32, mi: u32, s: u32) -> DateTime {
    let t = NaiveDate::from_ymd_opt(y, m, d).unwrap().and_hms_opt(h, mi, s).unwrap();
    DateTime::from_timestamp(t.and_utc().timestamp())
}

fn parsed(text: &str) -> DateTime {
    let t = NaiveDateTime::parse_from_str(text, "%Y-%m-%d %H:%M:%S").unwrap();
    DateTime::from_timestamp(t.and_utc().timestamp())
}

#[test]
fn it_should_convert_strings_and_slices_to_a_resourcetype() {
    let s: String = "fermentor".to_string();
    let s2 = s.clone();

    assert_eq!(ResourceType::Fermentor, ResourceType::from(s));

    assert_eq!(ResourceType::Fermentor, ResourceType::from(&s2[..]));
}

#[test]
fn unknown_labels_become_other_resource_types() {
    assert_eq!(ResourceType::Kettle, ResourceType::from("kettle"));
    assert_eq!(ResourceType::MashTun, ResourceType::from("mashtun"));
    assert_eq!(ResourceType::LauterTun, ResourceType::from("lautertun"));
    assert_eq!(ResourceType::Keg, ResourceType::from("keg"));
    assert_eq!(ResourceType::Kegerator, ResourceType::from("kegerator"));
    assert_eq!(ResourceType::GasTank, ResourceType::from("gastank"));
    assert_eq!(ResourceType::Other("fancythingy".to_string()), ResourceType::from("fancythingy"));
    assert_ne!(ResourceType::Other("a".to_string()), ResourceType::Other("b".to_string()));
    assert_ne!(ResourceType::Keg, ResourceType::Other("keg".to_string()));
}

#[test]
fn test_resource_allocation() {
    let mut resource: Resource = Resource::new(2008, "Large Kettle", ResourceType::Kettle, "15g");

    let allocated = resource.allocate_over_start_duration(at(2019, 12, 1, 0, 0, 0), Duration::days(10));
    assert!(allocated.is_some());

    assert!(allocated
        .unwrap()
        .is_allocated_over_start_duration(at(2019, 12, 4, 12, 0, 26), Duration::days(1)));
    assert!(!allocated
        .unwrap()
        .is_allocated_over_start_duration(at(2020, 1, 4, 0, 0, 0), Duration::days(14)));

    let allocated_fail =
        resource.allocate_over_start_duration(at(2019, 12, 2, 0, 0, 0), Duration::days(22));
    assert!(allocated_fail.is_none());
}

#[test]
fn overlapping_rebooking_of_one_resource_fails() {
    let mut resource = Resource::new(1, "FV-001", ResourceType::Fermentor, "5g");
    let start = at(2020, 1, 1, 0, 0, 0);
    assert!(resource.allocate_over_start_duration(start, Duration::days(10)).is_some());
    // Shares only the boundary instant with the first booking.
    let touching = at(2020, 1, 11, 0, 0, 0);
    assert!(resource.allocate_over_start_duration(touching, Duration::days(1)).is_none());
    let after = at(2020, 1, 11, 0, 0, 1);
    assert!(resource.allocate_over_start_duration(after, Duration::days(1)).is_some());
    // Bookings stay sorted by start.
    let before = at(2019, 12, 1, 0, 0, 0);
    assert!(resource.allocate_over_start_duration(before, Duration::days(1)).is_some());
    let starts: Vec<i64> = resource.allocated_periods.iter().map(|p| p.start.secs).collect();
    assert_eq!(vec![before.secs, start.secs, after.secs], starts);
}

#[test]
fn test_get_resource_earliest_free_date() {
    let mut resource: Resource = Resource::new(2008, "Large Kettle", ResourceType::Kettle, "15g");
    let target_date = parsed("2020-01-01 00:00:00");
    let target_period = Period::from_start_duration(target_date, Duration::days(10));

    assert_eq!(target_date, resource.get_earliest_free_date_for_period(target_period));

    resource.allocate_over_start_duration(target_period.start, target_period.duration());

    let next_target_date = parsed("2020-01-04 00:00:00");
    let next_target_period = Period::from_start_duration(next_target_date, Duration::days(4));

    let good_start_date = parsed("2020-01-11 00:00:01");
    assert_eq!(good_start_date, resource.get_earliest_free_date_for_period(next_target_period));
}

#[test]
fn earliest_free_date_skips_gaps_that_are_too_short() {
    let mut resource = Resource::new(1, "FV-001", ResourceType::Fermentor, "5g");
    resource.allocate_over_start_duration(parsed("2020-01-01 00:00:00"), Duration::days(10));
    resource.allocate_over_start_duration(parsed("2020-01-13 00:00:00"), Duration::days(10));
    let want = Period::from_start_duration(parsed("2020-01-05 00:00:00"), Duration::days(5));
    assert_eq!(parsed("2020-01-23 00:00:01"), resource.get_earliest_free_date_for_period(want));
    let short = Period::from_start_duration(parsed("2020-01-05 00:00:00"), Duration::days(1));
    assert_eq!(parsed("2020-01-11 00:00:01"), resource.get_earliest_free_date_for_period(short));
}

#[test]
fn test_get_next_available_resource_date_for_type_over_period_with_no_resources() {
    let mut tracker = ResourceTracker::new();
    let next_target_date = parsed("2020-01-04 00:00:00");
    let period = Period::from_start_duration(next_target_date, Duration::days(4));
    assert!(tracker
        .get_next_available_resource_date_for_type_over_period(&ResourceType::LauterTun, period)
        .is_none());
}

#[test]
fn test_next_available_resource_date_for_type_with_no_allocated_resources() {
    let mut tracker = ResourceTracker::new();
    let resource: Resource = Resource::new(2008, "Large Kettle", ResourceType::Kettle, "15g");

    tracker.track_resource(resource);

    let next_target_date = parsed("2020-01-04 00:00:00");

    let period = Period::from_start_duration(next_target_date, Duration::days(4));

    assert_eq!(
        next_target_date,
        tracker
            .get_next_available_resource_date_for_type_over_period(&ResourceType::Kettle, period)
            .unwrap()
    );
}

#[test]
fn test_two_resources_allocated_no_space_between() {
    // Resource 1 Allocation |----------|    |----------|
    // Resource 2 Allocation      |----------|
    // Resource Request             |-----|
    // Resource Available                    |-----|
    let mut resource1 = Resource::new(2008, "FV 001", ResourceType::Fermentor, "5g");
    let r1_allocation_start1 = parsed("2020-01-01 00:00:00");
    let r1_allocation_start2 = parsed("2020-01-14 00:00:00");
    let allocation1 = resource1.allocate_over_start_duration(r1_allocation_start1, Duration::days(10));
    assert!(allocation1.is_some());

    let allocation2 = resource1.allocate_over_start_duration(r1_allocation_start2, Duration::days(10));
    assert!(allocation2.is_some());

    let mut resource2 = Resource::new(2009, "FV 002", ResourceType::Fermentor, "5g");
    let r2_allocation_start1 = parsed("2020-01-05 00:00:00");
    let allocation3 = resource2.allocate_over_start_duration(r2_allocation_start1, Duration::days(10));
    assert!(allocation3.is_some());

    let mut tracker = ResourceTracker::new();
    tracker.track_resource(resource1);
    tracker.track_resource(resource2);

    let desired_start = parsed("2020-01-07 00:00:00");
    let period = Period::from_start_duration(desired_start, Duration::days(5));
    let avab_date =
        tracker.get_next_available_resource_date_for_type_over_period(&ResourceType::Fermentor, period);
    let expected_avab = parsed("2020-01-15 00:00:01");
    assert_eq!(expected_avab, avab_date.unwrap());
}

#[test]
fn test_is_resource_of_type_free_over_period() {
    let mut resource1 = Resource::new(2008, "FV 001", ResourceType::Fermentor, "5g");
    let r1_allocation_start1 = parsed("2020-01-01 00:00:00");
    let r1_allocation_start2 = parsed("2020-01-14 00:00:00");
    let allocation1 = resource1.allocate_over_start_duration(r1_allocation_start1, Duration::days(10));
    assert!(allocation1.is_some());

    let allocation2 = resource1.allocate_over_start_duration(r1_allocation_start2, Duration::days(10));
    assert!(allocation2.is_some());

    let mut resource2 = Resource::new(2009, "FV 002", ResourceType::Fermentor, "5g");
    let r2_allocation_start1 = parsed("2020-01-05 00:00:00");
    let allocation3 = resource2.allocate_over_start_duration(r2_allocation_start1, Duration::days(10));
    assert!(allocation3.is_some());

    let mut tracker = ResourceTracker::new();
    tracker.track_resource(resource1);
    tracker.track_resource(resource2);

    let desired_start = parsed("2020-01-07 00:00:00");
    let period = Period::from_start_duration(desired_start, Duration::days(5));

    assert!(!tracker.is_resource_of_type_free_for_period(&ResourceType::Fermentor, period));
    assert!(!tracker.is_resource_of_type_free_for_period(&ResourceType::Kettle, period));

    let expected_avab = parsed("2020-01-15 00:00:01");
    let expected_period = Period::from_start_duration(expected_avab, Duration::days(5));
    assert!(tracker.is_resource_of_type_free_for_period(&ResourceType::Fermentor, expected_period));
}

#[test]
fn test_allocate_resource_of_type_over_period_with_no_resources() {
    let mut tracker = ResourceTracker::new();

    let desired_start = parsed("2020-01-07 00:00:00");
    let period = Period::from_start_duration(desired_start, Duration::days(5));

    assert_eq!(None, tracker.allocate_resource_of_type_for_period(&ResourceType::Fermentor, period));
}

#[test]
fn test_allocate_resource_of_type_over_period_with_no_free_resources_for_period() {
    let mut resource1 = Resource::new(2008, "FV 001", ResourceType::Fermentor, "5g");
    let r1_allocation_start1 = parsed("2020-01-01 00:00:00");
    let allocation1 = resource1.allocate_over_start_duration(r1_allocation_start1, Duration::days(10));
    assert!(allocation1.is_some());

    let mut tracker = ResourceTracker::new();
    tracker.track_resource(resource1);

    let desired_start = parsed("2020-01-07 00:00:00");
    let period = Period::from_start_duration(desired_start, Duration::days(5));

    assert_eq!(None, tracker.allocate_resource_of_type_for_period(&ResourceType::Fermentor, period));
}

#[test]
fn test_allocate_resource_of_type_over_period_with_single_free_resource() {
    let resource1 = Resource::new(2008, "FV 001", ResourceType::Fermentor, "5g");

    let mut tracker = ResourceTracker::new();
    tracker.track_resource(resource1);

    let desired_start = parsed("2020-01-07 00:00:00");
    let period = Period::from_start_duration(desired_start, Duration::days(5));

    let allocated = tracker.allocate_resource_of_type_for_period(&ResourceType::Fermentor, period);
    assert!(allocated.is_some());

    assert!(!tracker.is_resource_of_type_free_for_period(&ResourceType::Fermentor, period));

    let free_period = Period::from_start_duration(
        desired_start.checked_add(Duration::days(20)).unwrap(),
        Duration::days(15),
    );
    assert!(tracker.is_resource_of_type_free_for_period(&ResourceType::Fermentor, free_period));
}

#[test]
fn test_several_resources_get_free_of_type() {
    let resource1 = Resource::new(1, "FV-001", ResourceType::Fermentor, "5g");
    let resource2 = Resource::new(2, "FV-002", ResourceType::Fermentor, "5g");
    let resource3 =
        Resource::new(3, "Scott's CO2 Tank", ResourceType::Other("gastank".to_string()), "5p");

    let mut tracker = ResourceTracker::new();
    tracker.track_resource(resource1);
    tracker.track_resource(resource2);
    tracker.track_resource(resource3);

    let allocation_start = at(2020, 1, 12, 0, 0, 0);
    let allocation_period = Period::from_start_duration(allocation_start, Duration::days(10));

    let allocated_resource =
        tracker.allocate_resource_of_type_for_period(&ResourceType::Fermentor, allocation_period);

    assert!(allocated_resource.is_some());

    let res = allocated_resource.unwrap();

    assert_eq!(ResourceType::Fermentor, res.resource_type);
    assert_eq!(1, res.id);
}

#[test]
fn allocation_prefers_the_smallest_id_whatever_the_tracking_order() {
    let mut tracker = ResourceTracker::new();
    tracker.track_resource(Resource::new(2, "FV-002", ResourceType::Fermentor, "5g"));
    tracker.track_resource(Resource::new(1, "FV-001", ResourceType::Fermentor, "5g"));
    let period = Period::from_start_duration(at(2020, 1, 1, 0, 0, 0), Duration::days(3));
    assert_eq!(1, tracker.allocate_resource_of_type_for_period(&ResourceType::Fermentor, period).unwrap().id);
    // The same request again finds resource 1 booked and takes resource 2.
    assert_eq!(2, tracker.allocate_resource_of_type_for_period(&ResourceType::Fermentor, period).unwrap().id);
    assert!(tracker.allocate_resource_of_type_for_period(&ResourceType::Fermentor, period).is_none());
    // A period that shares no instant with the first fits on resource 1 again.
    let later = Period::from_start_duration(at(2020, 1, 4, 0, 0, 1), Duration::days(3));
    assert_eq!(1, tracker.allocate_resource_of_type_for_period(&ResourceType::Fermentor, later).unwrap().id);
}

#[test]
fn tracking_a_resource_again_replaces_it_by_id() {
    let mut tracker = ResourceTracker::new();
    tracker.track_resource(Resource::new(5, "Old", ResourceType::Keg, "5g"));
    tracker.track_resource(Resource::new(3, "Other", ResourceType::Kettle, "15g"));
    tracker.track_resource(Resource::new(5, "New", ResourceType::Keg, "5g"));
    let all = tracker.get_all_tracked_resources();
    assert_eq!(2, all.len());
    assert_eq!(3, all[0].id);
    assert_eq!(5, all[1].id);
    assert_eq!("New", all[1].name);
}

#[test]
fn test_long_term_allocation() {
    let keg1 = Resource::new(6, "Keg 001", ResourceType::Keg, "5g");
    let keg2 = Resource::new(7, "Keg 002", ResourceType::Keg, "5g");

    let mut tracker = ResourceTracker::new();
    tracker.track_resource(keg1);
    tracker.track_resource(keg2);

    let carb_period1 = Period::from_start_duration(at(2020, 1, 31, 4, 0, 2), Duration::days(10));

    let allocated_keg1_pd1 = tracker.allocate_resource_of_type_for_period(&ResourceType::Keg, carb_period1);

    assert!(allocated_keg1_pd1.is_some());
    assert_eq!(6, allocated_keg1_pd1.unwrap().id);

    let carb_period2 = Period::from_start_duration(at(2020, 4, 8, 4, 0, 0), Duration::days(10));
    let allocated_keg1_pd2 = tracker.allocate_resource_of_type_for_period(&ResourceType::Keg, carb_period2);

    assert!(allocated_keg1_pd2.is_some());
    assert_eq!(6, allocated_keg1_pd2.unwrap().id);

    let available_period1 = Period::from_start_duration(at(2020, 4, 18, 4, 0, 0), Duration::days(30 * 6));
    let allocated_keg2_pd1 =
        tracker.allocate_resource_of_type_for_period(&ResourceType::Keg, available_period1);

    assert!(allocated_keg2_pd1.is_some());
    assert_eq!(7, allocated_keg2_pd1.unwrap().id);

    let available_period2 = Period::from_start_duration(at(2020, 4, 18, 4, 0, 1), Duration::days(30 * 6));
    let allocated_keg1_pd3 =
        tracker.allocate_resource_of_type_for_period(&ResourceType::Keg, available_period2);

    assert!(allocated_keg1_pd3.is_some());
    assert_eq!(6, allocated_keg1_pd3.unwrap().id);

    // Now, the earliest possible free date for a resource of type Keg after 2020-02-16 04 should
    // be 2020-10-15T04:00:00
    let desired_start = at(2020, 2, 16, 4, 0, 1).checked_add(Duration::days(64)).unwrap();
    let desired_period = Period::from_start_duration(desired_start, Duration::days(10));

    let first_available_date =
        tracker.get_next_available_resource_date_for_type_over_period(&ResourceType::Keg, desired_period);

    assert!(first_available_date.is_some());
    assert_eq!(at(2020, 10, 15, 4, 0, 1), first_available_date.unwrap());
}

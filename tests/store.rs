use timet_tui::api::TimetEntry;
use timet_tui::calendar::Date;
use timet_tui::store::{Store, StoreError};

fn entry(year: i32, day_of_year: u32, month: u32, hours: u32, id: &str, name: &str) -> TimetEntry {
    TimetEntry {
        day_of_year,
        year,
        month,
        iso_week_year: year as u32,
        iso_week: 14,
        week: 14,
        hours,
        project_name: name.to_string(),
        project_id: id.to_string(),
    }
}

// April 2024: day 92 is April 1st.
fn create_timet_entries() -> Vec<TimetEntry> {
    vec![
        entry(2024, 92, 4, 750, "p-1", "Alpha"),
        entry(2024, 93, 4, 800, "p-1", "Alpha"),
        entry(2024, 93, 4, 0, "p-2", "Beta"),
        entry(2024, 94, 4, 400, "p-2", "Beta"),
        entry(2024, 95, 4, 0, "p-3", "Gamma"),
    ]
}

fn create_store() -> Store {
    Store::new()
}

#[test]
fn test_entry_count() {
    let mut store = create_store();
    let items = create_timet_entries();
    store.insert(items).unwrap();

    let sum = store.entry_count();
    assert_eq!(sum > 0, true);
}

#[test]
fn test_entry_truncate() {
    let mut store = create_store();
    let items = create_timet_entries();
    store.insert(items).unwrap();

    let mut sum = store.entry_count();
    assert_eq!(&sum > &0, true);
    store.entry_truncate();
    sum = store.entry_count();
    assert_eq!(sum, 0);
}

#[test]
fn test_store_default_project() {
    let mut store = create_store();
    store.insert_active_project("foobar");

    let result = store.default_project();
    assert!(result.is_none());
}

#[test]
fn test_store_insert() {
    let mut store = create_store();
    let items = create_timet_entries();
    let result = store.insert(items);
    assert_eq!(result.is_ok(), true)
}

#[test]
fn test_store_insert_hours() {
    let mut store = create_store();
    let items = create_timet_entries();
    store.insert(items.clone()).unwrap();
    let project = items.get(0).unwrap();
    let today = Date { year: 2024, month: 11, day: 30 };
    let result = store.insert_hours(&project.project_id, 750, today);
    assert_eq!(result.is_ok(), true, "{:?}", &result)
}

#[test]
fn test_store_projects() {
    let mut store = create_store();
    let items = create_timet_entries();
    store.insert(items).unwrap();

    let projects = store.projects();
    assert!(
        !projects.is_empty(),
        "should always return test projects"
    );
}

#[test]
fn test_store_get_yearly_overview() {
    let mut store = create_store();
    let items = create_timet_entries();
    store.insert(items).unwrap();
    let result = store.get_yearly_overview(2024);
    assert_eq!(result.len(), 12);
}

#[test]
fn test_store_get_month() {
    let mut store = create_store();
    let items = create_timet_entries();
    store.insert(items).unwrap();

    let result = store.get_month_overview(4, 2024);
    assert_eq!(result.is_ok(), true);
    assert!(!result.unwrap().is_empty());
}

#[test]
fn test_store_get_days() {
    let mut store = create_store();
    let items = create_timet_entries();
    store.insert(items).unwrap();

    let days = store.get_days();
    assert_eq!(days.is_empty(), false);
}

#[test]
fn test_fully() {
    let month = create_timet_entries();
    let month2 = create_timet_entries();

    let mut store = create_store();
    store.insert(month).unwrap();
    store.insert(month2).unwrap();

    let days = store.get_days();
    assert_eq!(days.len(), 5);
}

#[test]
fn ordinal_days_become_calendar_days() {
    let mut store = create_store();
    store.insert(vec![entry(2024, 60, 2, 100, "p", "P"), entry(2023, 365, 12, 100, "p", "P")]).unwrap();
    let days = store.get_days();
    assert_eq!(days[0].date, Date { year: 2023, month: 12, day: 31 });
    assert_eq!(days[1].date, Date { year: 2024, month: 2, day: 29 });
    assert_eq!(days[0].id, 1);
    assert_eq!(days[1].id, 2);
}

#[test]
fn invalid_day_of_year_is_refused_and_nothing_written() {
    let mut store = create_store();
    store.insert(create_timet_entries()).unwrap();
    let before = store.get_days().len();
    let result = store.insert(vec![entry(2024, 10, 1, 100, "p-9", "Nine"), entry(2023, 366, 12, 100, "p-9", "Nine")]);
    assert_eq!(result, Err(StoreError::InvalidDate { year: 2023, day_of_year: 366 }));
    assert_eq!(store.get_days().len(), before);
    assert_eq!(
        result.unwrap_err().message(),
        "Could not create date from 2023-366"
    );
}

#[test]
fn invalid_month_is_refused() {
    let store = create_store();
    let result = store.get_month_overview(13, 2024);
    assert_eq!(result.unwrap_err(), StoreError::InvalidMonth { year: 2024, month: 13 });
    let negative = StoreError::InvalidMonth { year: -5, month: 0 };
    assert_eq!(negative.message(), "Could not create date from -5-0-1");
}

#[test]
fn unknown_project_is_refused() {
    let mut store = create_store();
    store.insert(create_timet_entries()).unwrap();
    let result = store.insert_hours("nobody", 100, Date { year: 2024, month: 5, day: 1 });
    assert_eq!(result, Err(StoreError::UnknownProject { project_id: "nobody".to_string() }));
    assert_eq!(result.unwrap_err().message(), "Unknown project nobody");
    assert_eq!(store.entry_count(), 5);
}

#[test]
fn insert_hours_twice_keeps_one_entry_with_the_second_value() {
    let mut store = create_store();
    store.insert(create_timet_entries()).unwrap();
    let day = Date { year: 2024, month: 4, day: 20 };
    store.insert_hours("p-1", 300, day).unwrap();
    store.insert_hours("p-1", 650, day).unwrap();
    let days = store.get_days();
    let same: Vec<_> = days.iter().filter(|d| d.date == day && d.project_id == "p-1").collect();
    assert_eq!(same.len(), 1);
    assert_eq!(same[0].hours, 650);
    assert_eq!(same[0].project_name, "Alpha");
    assert_eq!(days.len(), 6);
}

#[test]
fn later_item_for_same_day_and_project_replaces_earlier() {
    let mut store = create_store();
    store.insert(vec![entry(2024, 92, 4, 100, "p-1", "Alpha"), entry(2024, 92, 4, 200, "p-1", "Alpha")]).unwrap();
    let days = store.get_days();
    assert_eq!(days.len(), 1);
    assert_eq!(days[0].hours, 200);
}

#[test]
fn entries_are_kept_in_calendar_order() {
    let mut store = create_store();
    store.insert(vec![entry(2024, 120, 4, 100, "a", "A"), entry(2024, 20, 1, 100, "a", "A"), entry(2024, 60, 2, 100, "b", "B")]).unwrap();
    let days = store.get_days();
    assert_eq!(days[0].date.month, 1);
    assert_eq!(days[1].date.month, 2);
    assert_eq!(days[2].date.month, 4);
}

#[test]
fn projects_are_distinct_and_skip_zero_hours() {
    let mut store = create_store();
    store.insert(create_timet_entries()).unwrap();
    let projects = store.projects();
    let ids: Vec<&str> = projects.iter().map(|p| p.project_id.as_str()).collect();
    assert_eq!(ids, vec!["p-1", "p-2"]);
    assert_eq!(projects[1].project_name, "Beta");
}

#[test]
fn yearly_overview_example_with_and_without_active_project() {
    let mut store = create_store();
    store
        .insert(vec![
            entry(2024, 15, 1, 1000, "A", "Project A"),
            entry(2024, 40, 2, 500, "A", "Project A"),
            entry(2024, 41, 2, 300, "B", "Project B"),
        ])
        .unwrap();
    let all = store.get_yearly_overview(2024);
    assert_eq!(all[0].hours, 1000);
    assert_eq!(all[1].hours, 800);
    assert_eq!(all[0].month, 1);
    assert_eq!(all[0].month_name, "January");
    assert_eq!(all[11].month_name, "December");
    assert!(all[2..].iter().all(|y| y.hours == 0));

    store.insert_active_project("A");
    let only_a = store.get_yearly_overview(2024);
    assert_eq!(only_a[0].hours, 1000);
    assert_eq!(only_a[1].hours, 500);

    store.delete_active_project();
    let again = store.get_yearly_overview(2024);
    assert_eq!(again[1].hours, 800);
}

#[test]
fn overview_counts_only_the_requested_year() {
    let mut store = create_store();
    store.insert(vec![entry(2023, 15, 1, 1000, "A", "A"), entry(2024, 15, 1, 200, "A", "A")]).unwrap();
    assert_eq!(store.get_yearly_overview(2024)[0].hours, 200);
    assert_eq!(store.get_yearly_overview(2023)[0].hours, 1000);
}

#[test]
fn month_detail_filters_and_orders() {
    let mut store = create_store();
    store.insert(create_timet_entries()).unwrap();
    let rows = store.get_month_overview(4, 2024).unwrap();
    let hours: Vec<u32> = rows.iter().map(|m| m.hours).collect();
    assert_eq!(hours, vec![750, 800, 400]);
    assert_eq!(rows[0].date, Date { year: 2024, month: 4, day: 1 });
    store.insert_active_project("p-2");
    let rows = store.get_month_overview(4, 2024).unwrap();
    assert_eq!(rows.len(), 1);
    assert_eq!(rows[0].project_name, "Beta");
    assert!(store.get_month_overview(5, 2024).unwrap().is_empty());
}

#[test]
fn default_project_takes_name_from_entries() {
    let mut store = create_store();
    store.insert(create_timet_entries()).unwrap();
    assert!(store.default_project().is_none());
    store.insert_active_project("p-2");
    let p = store.default_project().unwrap();
    assert_eq!(p.project_id, "p-2");
    assert_eq!(p.project_name, "Beta");
    assert_eq!(store.get_project_name("p-1").unwrap(), "Alpha");
}

#[test]
fn replace_all_swaps_entries_and_keeps_preference() {
    let mut store = create_store();
    store.insert(create_timet_entries()).unwrap();
    store.insert_active_project("p-1");
    store.replace_all(vec![entry(2024, 10, 1, 100, "p-1", "Alpha")]).unwrap();
    assert_eq!(store.entry_count(), 1);
    assert_eq!(store.default_project().unwrap().project_id, "p-1");
    let failed = store.replace_all(vec![entry(2024, 0, 1, 100, "p-1", "Alpha")]);
    assert!(failed.is_err());
    assert_eq!(store.entry_count(), 1);
}

#[test]
fn projects_are_ordered_by_name() {
    let mut store = create_store();
    store
        .insert(vec![
            entry(2024, 10, 1, 100, "z", "Zeta"),
            entry(2024, 11, 1, 100, "a", "Alpha"),
            entry(2024, 12, 1, 100, "m", "Mu"),
            entry(2024, 13, 1, 100, "a2", "Alpha"),
        ])
        .unwrap();
    let names: Vec<(String, String)> =
        store.projects().into_iter().map(|p| (p.project_id, p.project_name)).collect();
    assert_eq!(
        names,
        vec![
            ("a".to_string(), "Alpha".to_string()),
            ("a2".to_string(), "Alpha".to_string()),
            ("m".to_string(), "Mu".to_string()),
            ("z".to_string(), "Zeta".to_string()),
        ]
    );
}

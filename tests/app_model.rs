use timet_tui::api::{Api, Hours, TimetEntry};
use timet_tui::calendar::Date;
use timet_tui::config::{self, set_endpoint, Config, ConfigError};
use timet_tui::model::{settle, update, ActiveView, Command, Key, Message, Model, RunningState};
use timet_tui::refresh::RefreshRun;
use timet_tui::store::{Project, Store};

fn entry(day_of_year: u32, hours: u32, id: &str, name: &str) -> TimetEntry {
    TimetEntry {
        day_of_year,
        year: 2024,
        month: 1,
        iso_week_year: 2024,
        iso_week: 1,
        week: 1,
        hours,
        project_name: name.to_string(),
        project_id: id.to_string(),
    }
}

fn test_config() -> Config {
    Config {
        version: "0-test",
        commit: "sdfsfds",
        config_location: "".to_string(),
        default_project: None,
        api: config::Api { endpoint: "https://example.org/".to_string(), key: "k".to_string() },
    }
}

fn test_model(store: Store) -> Model {
    let cfg = test_config();
    let api = Api::new(&cfg);
    Model::new(api, store, cfg, Date { year: 2024, month: 3, day: 15 })
}

fn apply(model: &mut Model, msg: Message) {
    settle(model, Some(msg));
}

#[test]
fn set_endpoint_test() {
    let no_protocol = "example.org".to_string();
    assert_eq!(
        "https://example.org/",
        set_endpoint(&no_protocol).unwrap().as_str()
    );

    let protocol = "https://example.org".to_string();
    assert_eq!("https://example.org/", set_endpoint(&protocol).unwrap());

    let protocol = "https://example.org/".to_string();
    assert_eq!("https://example.org/", set_endpoint(&protocol).unwrap());

    let protocol = "http://example.org".to_string();
    assert!(set_endpoint(&protocol).is_err());
}

#[test]
fn http_endpoint_error_variant() {
    assert_eq!(set_endpoint("http://x"), Err(ConfigError::InsecureEndpoint));
}

#[test]
fn api_addresses() {
    let api = Api::new(&test_config());
    assert_eq!(api.month_url(2024, 3), "https://example.org/entries-bymonth?year=2024&month=3");
    assert_eq!(api.upsert_url(), "https://example.org/entries-upsert-one");
    assert_eq!(api.api_key(), "k");
    assert!(Api::post_succeeded(200));
    assert!(!Api::post_succeeded(500));
}

#[test]
fn selection_stays_within_overview() {
    let mut model = test_model(Store::new());
    for _ in 0..30 {
        model.next_row();
        assert!(model.selected < model.overview.len());
    }
    assert_eq!(model.selected, 11);
    for _ in 0..30 {
        model.previous_row().unwrap();
        assert!(model.selected < model.overview.len());
    }
    assert_eq!(model.selected, 0);
    assert_eq!(model.active_month, 1);
}

#[test]
fn refresh_run_hands_over_every_month_in_order() {
    let mut run = RefreshRun::new(2024, 3);
    assert_eq!(run.next_fetch(), Some(1));
    let m1 = run.on_month(Ok(Some(vec![entry(10, 100, "a", "A")])));
    assert!(matches!(m1.as_slice(), [Message::RefreshProgressing(1)]));
    let m2 = run.on_month(Ok(Some(vec![])));
    assert!(matches!(m2.as_slice(), [Message::RefreshProgressing(2)]));
    let m3 = run.on_month(Ok(Some(vec![entry(70, 200, "a", "A"), entry(71, 300, "b", "B")])));
    assert_eq!(run.next_fetch(), None);
    match m3.as_slice() {
        [Message::RefreshProgressing(3), Message::RefreshFetched(all)] => {
            let days: Vec<u32> = all.iter().map(|e| e.day_of_year).collect();
            assert_eq!(days, vec![10, 70, 71]);
        }
        other => panic!("unexpected {:?}", other),
    }
}

#[test]
fn refresh_completion_replaces_cache_and_totals_match() {
    let mut model = test_model(Store::new());
    let all = vec![entry(10, 100, "a", "A"), entry(20, 250, "b", "B"), entry(40, 300, "a", "A")];
    apply(&mut model, Message::RefreshFetched(all));
    assert_eq!(model.active_view, ActiveView::Home);
    assert_eq!(model.store.entry_count(), 3);
    assert_eq!(model.overview[0].hours, 350);
    assert_eq!(model.overview[1].hours, 300);
}

#[test]
fn failed_month_leaves_cache_untouched() {
    let mut store = Store::new();
    store.insert(vec![entry(5, 100, "a", "A")]).unwrap();
    let mut model = test_model(store);
    let mut run = RefreshRun::new(2024, 3);
    run.on_month(Ok(Some(vec![entry(10, 999, "z", "Z")])));
    let msgs = run.on_month(Err("timeout".to_string()));
    assert_eq!(run.next_fetch(), None);
    assert_eq!(msgs.len(), 1);
    for m in msgs {
        apply(&mut model, m);
    }
    assert_eq!(model.store.entry_count(), 1);
    assert_eq!(model.store.get_days()[0].hours, 100);
    assert_eq!(model.active_error_msg, Some("API error: timeout".to_string()));
    let mut run = RefreshRun::new(2024, 1);
    let msgs = run.on_month(Ok(None));
    assert!(matches!(msgs.as_slice(), [Message::RefreshFailed(t)] if t == "No entries in response"));
}

#[test]
fn refresh_is_single_flight() {
    let mut model = test_model(Store::new());
    apply(&mut model, Message::RefreshStarted);
    assert_eq!(model.active_view, ActiveView::Loading);
    match model.take_command(Date { year: 2024, month: 3, day: 15 }) {
        Some(Command::Refresh(run)) => {
            assert_eq!(run.year, 2024);
            assert_eq!(run.last_month, 3);
        }
        _ => panic!("expected a refresh"),
    }
    apply(&mut model, Message::RefreshStarted);
    assert!(model.take_command(Date { year: 2024, month: 3, day: 15 }).is_none());
}

#[test]
fn active_project_message_filters_overview() {
    let mut store = Store::new();
    store.insert(vec![entry(10, 100, "a", "A"), entry(11, 200, "b", "B")]).unwrap();
    let mut model = test_model(store);
    assert_eq!(model.overview[0].hours, 300);
    let p = Project { project_id: "a".to_string(), project_name: "A".to_string() };
    apply(&mut model, Message::ActiveProject(Some(p)));
    assert_eq!(model.overview[0].hours, 100);
    assert_eq!(model.store.default_project().unwrap().project_id, "a");
    apply(&mut model, Message::ActiveProject(None));
    assert_eq!(model.overview[0].hours, 300);
    assert!(model.active_project.is_none());
}

#[test]
fn logging_hours_goes_through_post_and_cache() {
    let mut store = Store::new();
    store.insert(vec![entry(10, 100, "a", "A")]).unwrap();
    store.insert_active_project("a");
    let mut model = test_model(store);
    let first = model.handle_key(Key::Char('l')).unwrap();
    apply(&mut model, first.unwrap());
    assert_eq!(model.active_view, ActiveView::LogHours);
    for c in "7.5".chars() {
        assert!(model.handle_key(Key::Char(c)).unwrap().is_none());
    }
    assert!(model.handle_key(Key::Enter).unwrap().is_none());
    let today = Date { year: 2024, month: 3, day: 15 };
    let post: Hours = match model.take_command(today) {
        Some(Command::PostHours(post)) => post,
        _ => panic!("expected hours to send"),
    };
    assert_eq!(post.hours, 750);
    assert_eq!(post.project, "a");
    let next = model.hours_posted(&post, Ok(()));
    apply(&mut model, next.unwrap());
    assert_eq!(model.active_view, ActiveView::Home);
    assert_eq!(model.overview[2].hours, 750);
    assert_eq!(model.add_hours_model.input(), "");
}

#[test]
fn failed_post_is_shown_in_the_entry() {
    let mut model = test_model(Store::new());
    let post = Hours { project: "a".to_string(), date: Date { year: 2024, month: 3, day: 1 }, hours: 100 };
    let next = model.hours_posted(&post, Err("refused".to_string()));
    apply(&mut model, next.unwrap());
    assert_eq!(model.add_hours_model.error_message, Some("refused".to_string()));
    let next = model.hours_posted(&post, Ok(()));
    apply(&mut model, next.unwrap());
    assert_eq!(model.add_hours_model.error_message, Some("Unknown project a".to_string()));
}

#[test]
fn global_keys() {
    let mut model = test_model(Store::new());
    assert!(matches!(model.handle_key(Key::Char('q')), Ok(Some(Message::Quit))));
    assert!(model.handle_key(Key::Char('l')).unwrap().is_none());
    assert_eq!(model.active_error_msg, Some("An active project must be set to log hours".to_string()));
    apply(&mut model, Message::Home);
    assert!(model.active_error_msg.is_none());
    let detail = model.handle_key(Key::Enter).unwrap();
    apply(&mut model, detail.unwrap());
    assert_eq!(model.active_view, ActiveView::Month);
    apply(&mut model, Message::Quit);
    assert_eq!(model.running_state, RunningState::Done);
}

#[test]
fn new_model_starts_clean() {
    let model = test_model(Store::new());
    assert!(model.active_error_msg.is_none());
    assert_eq!(model.active_view, ActiveView::Home);
    assert_eq!(model.selected, 0);
    assert_eq!(model.overview.len(), 12);
}

#[test]
fn settle_reports_cache_writes_and_stops() {
    let mut model = test_model(Store::new());
    assert!(!settle(&mut model, Some(Message::Home)));
    assert_eq!(model.active_view, ActiveView::Home);
    assert!(settle(&mut model, Some(Message::RefreshFetched(vec![entry(10, 100, "a", "A")]))));
    assert_eq!(model.store.entry_count(), 1);
    assert_eq!(model.overview[0].hours, 100);
    assert!(!settle(&mut model, None));
}

#[test]
fn month_error_keeps_detail_and_banner_shows_it() {
    let cfg = test_config();
    let api = Api::new(&cfg);
    let mut model = Model::new(api, Store::new(), cfg, Date { year: 400000, month: 3, day: 15 });
    assert!(model.set_active_month().is_err());
    assert!(model.overview_month.is_empty());
    assert_eq!(model.active_month, 1);
    settle(&mut model, Some(Message::DetailMonth));
    assert_eq!(
        model.active_error_msg,
        Some("Could not create date from 400000-1-1".to_string())
    );
    assert_eq!(model.active_view, ActiveView::Home);
}

#[test]
fn view_message_keeps_banner() {
    let mut model = test_model(Store::new());
    apply(&mut model, Message::RefreshFailed("down".to_string()));
    apply(&mut model, Message::View(ActiveView::Month));
    assert_eq!(model.active_error_msg, Some("API error: down".to_string()));
    assert_eq!(model.active_view, ActiveView::Month);
    let _ = update(&mut model, Message::Quit).unwrap();
    assert_eq!(model.active_view, ActiveView::Month);
    assert_eq!(model.running_state, RunningState::Done);
}

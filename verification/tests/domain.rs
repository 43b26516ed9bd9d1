use v8_runner::domain::execution::{
    ExecutionOutcome, ExecutionStatus, ExecutionStepKind, ExecutionStepStatus, StepResult,
};
use v8_runner::domain::partial_dump_selector::PartialDumpSelector;
use v8_runner::domain::source_set::SourceSetContext;
use v8_runner::output::text::TextPresenter;
use v8_runner::support::error::AppError;

#[test]
fn partial_dump_selector_normalizes_colon_separator() {
    let selector = PartialDumpSelector::parse("Catalog:Items").expect("selector");

    assert_eq!(selector.requested(), "Catalog:Items");
    assert_eq!(selector.normalized(), "Catalog.Items");
}

#[test]
fn partial_dump_selector_preserves_outer_whitespace_in_requested_value() {
    let selector = PartialDumpSelector::parse("  Catalog:Items  ").expect("selector");

    assert_eq!(selector.requested(), "  Catalog:Items  ");
    assert_eq!(selector.normalized(), "Catalog.Items");
}

#[test]
fn partial_dump_selector_accepts_dotted_compatibility_form() {
    let selector = PartialDumpSelector::parse("Catalog.Items").expect("selector");

    assert_eq!(selector.requested(), "Catalog.Items");
    assert_eq!(selector.normalized(), "Catalog.Items");
}

#[test]
fn partial_dump_selector_accepts_arbitrary_metadata_root_types() {
    for (requested, normalized) in [
        ("FutureRoot:Items", "FutureRoot.Items"),
        (
            "ChartOfCharacteristicTypes:ПланВидовХарактеристик1",
            "ChartOfCharacteristicTypes.ПланВидовХарактеристик1",
        ),
        ("CommandGroup:ГруппаКоманд1", "CommandGroup.ГруппаКоманд1"),
        ("CommonPicture:ОбщаяКартинка1", "CommonPicture.ОбщаяКартинка1"),
        ("CommonTemplate:Макет", "CommonTemplate.Макет"),
        ("Configuration:Конфигурация", "Configuration.Конфигурация"),
        (
            "DocumentNumerator:НумераторДокументов1",
            "DocumentNumerator.НумераторДокументов1",
        ),
        (
            "ExternalDataSource:ВнешнийИсточникДанных1",
            "ExternalDataSource.ВнешнийИсточникДанных1",
        ),
        ("SettingsStorage:ХранилищеНастроек1", "SettingsStorage.ХранилищеНастроек1"),
        ("StyleItem:ЭлементСтиля1", "StyleItem.ЭлементСтиля1"),
        ("WebSocketClient:WebSocketКлиент1", "WebSocketClient.WebSocketКлиент1"),
    ] {
        let selector = PartialDumpSelector::parse(requested).expect("fixture selector");

        assert_eq!(selector.requested(), requested);
        assert_eq!(selector.normalized(), normalized);
    }
}

#[test]
fn partial_dump_selector_rejects_invalid_forms() {
    for requested in [":Items", "Catalog:", "Catalog:Items:Extra", "Catalog:Item\nInjected"] {
        assert!(
            PartialDumpSelector::parse(requested).is_err(),
            "expected '{requested}' to be rejected"
        );
    }
}

#[test]
fn partial_dump_selector_errors_are_validation_errors() {
    match PartialDumpSelector::parse("Catalog:Item\nInjected") {
        Err(AppError::Validation(m)) => assert!(m.contains("control characters")),
        other => panic!("unexpected {other:?}"),
    }
    assert!(matches!(PartialDumpSelector::parse("Catalog:"), Err(AppError::Validation(_))));
}

#[test]
fn partial_dump_selector_normalized_form_parses_back_to_itself() {
    let selector = PartialDumpSelector::parse(" Catalog : Items ").expect("selector");
    let again = PartialDumpSelector::parse(&selector.normalized()).expect("normalized");

    assert_eq!(again.normalized(), selector.normalized());
    assert_eq!(again.requested(), selector.normalized());
}

#[test]
fn accepts_absolute_path() {
    let context = SourceSetContext::new("main", "/tmp/src-main", "designer-main");
    assert_eq!(context.name(), "main");
    assert_eq!(context.path(), "/tmp/src-main");
    assert_eq!(context.storage_path("/tmp/work"), "/tmp/work/hash-storages/designer-main.redb");
}

#[test]
fn storage_path_keeps_relative_work_path_as_written() {
    let context = SourceSetContext::new("main", "/tmp/src-main", "designer-main");
    assert_eq!(context.storage_path("./work"), "./work/hash-storages/designer-main.redb");
    assert_eq!(context.storage_path("work"), "work/hash-storages/designer-main.redb");
}

#[test]
fn accepts_safe_storage_key() {
    let context = SourceSetContext::new("main", "/tmp/src-main", "main-config_01");
    assert_eq!(context.storage_path("/tmp/work"), "/tmp/work/hash-storages/main-config_01.redb");
}

#[test]
fn only_succeeded_status_is_ok() {
    assert!(ExecutionStatus::Succeeded.is_ok());
    for s in [
        ExecutionStatus::Failed,
        ExecutionStatus::Cancelled,
        ExecutionStatus::TimedOut,
        ExecutionStatus::InvalidOutput,
    ] {
        assert!(!s.is_ok());
    }
    let outcome: ExecutionOutcome<u32> = ExecutionOutcome::new(ExecutionStatus::Failed).with_payload(7);
    assert!(!outcome.is_ok());
    assert_eq!(outcome.payload, Some(7));
}

#[test]
fn step_constructors_set_ok_from_status() {
    let s = StepResult::succeeded("load".to_owned(), ExecutionStepKind::PlatformCommand, 5);
    assert!(s.ok);
    assert_eq!(s.status, ExecutionStepStatus::Succeeded);
    let f = StepResult::failed("load".to_owned(), ExecutionStepKind::PlatformCommand, 5);
    assert!(!f.ok);
    let d = StepResult::degraded("load".to_owned(), ExecutionStepKind::Cleanup, 1);
    assert!(d.ok);
    assert_eq!(d.status, ExecutionStepStatus::Degraded);
}

#[test]
fn text_presenter_lines_honour_no_color() {
    let plain = TextPresenter { no_color: true };
    assert_eq!(plain.ok_line("done"), "OK: done");
    assert_eq!(plain.error_line("bad"), "ERROR: bad");
    let colored = TextPresenter { no_color: false };
    assert_eq!(colored.ok_line("done"), "\u{1b}[32mOK\u{1b}[0m: done");
}

use zus::command::{
    build_command, cast_command_result, combined_output, default_foundry_keystore_dir,
    format_command_preview, normalize_path, required_value,
};
use zus::error::AppError;
use zus::keys::{Key, KeyOutcome};
use zus::text::{ascii_lowercase, is_whitespace, join, parse_usize, str_eq, trim, usize_to_string};
use zus::types::{ActionKind, App, CommandResult, Focus};
use zus::view::{
    actions_title, cursor_position, cursor_text, field_display_text, fields_panel_height,
    fields_title, hero_height, is_compact, is_stacked_body, output_title,
};

fn set(app: &mut App, form: usize, key: &str, value: &str) {
    for f in app.forms[form].fields.iter_mut() {
        if f.key == key {
            f.value = value.to_string();
        }
    }
}

fn strings(v: &[&str]) -> Vec<String> {
    v.iter().map(|s| s.to_string()).collect()
}

#[test]
fn new_app_has_three_flows() {
    let app = App::new();
    assert_eq!(app.forms.len(), 3);
    assert!(matches!(app.forms[0].kind, ActionKind::CheckAddress));
    assert!(matches!(app.forms[1].kind, ActionKind::CreateWallet));
    assert!(matches!(app.forms[2].kind, ActionKind::ImportWallet));
    assert_eq!(app.forms[1].fields.len(), 4);
    assert_eq!(app.forms[1].value("number"), "1");
    assert_eq!(app.focus, Focus::Actions);
    assert_eq!(app.status, "Ready");
    assert_eq!(app.last_command, "cast wallet address --private-key <PRIVATE_KEY>");
}

#[test]
fn action_navigation_wraps_and_resets_field() {
    let mut app = App::new();
    app.selected_field = 0;
    app.select_prev_action();
    assert_eq!(app.selected_action, 2);
    app.selected_field = 3;
    app.select_next_action();
    assert_eq!(app.selected_action, 0);
    assert_eq!(app.selected_field, 0);
    app.select_next_action();
    app.select_prev_action();
    assert_eq!(app.selected_action, 0);
}

#[test]
fn field_navigation_wraps() {
    let mut app = App::new();
    app.select_next_action();
    app.select_prev_field();
    assert_eq!(app.selected_field, 3);
    app.select_next_field();
    assert_eq!(app.selected_field, 0);
    app.select_next_field();
    app.select_prev_field();
    assert_eq!(app.selected_field, 0);
}

#[test]
fn insert_then_backspace_restores_value() {
    let mut app = App::new();
    app.insert_char('a');
    app.insert_char('b');
    assert_eq!(app.current_field().unwrap().value, "ab");
    app.backspace();
    assert_eq!(app.current_field().unwrap().value, "a");
    app.backspace();
    app.backspace();
    assert_eq!(app.current_field().unwrap().value, "");
}

#[test]
fn editing_without_a_field_does_nothing() {
    let mut app = App::new();
    app.selected_field = 7;
    assert!(app.current_field().is_none());
    app.insert_char('x');
    app.backspace();
    assert!(app.forms[0].fields.iter().all(|f| f.value.is_empty()));
}

#[test]
fn focus_and_clear_output() {
    let mut app = App::new();
    app.move_focus_right();
    assert_eq!(app.focus, Focus::Fields);
    app.move_focus_left();
    assert_eq!(app.focus, Focus::Actions);
    app.clear_output();
    assert_eq!(app.output, "");
    assert_eq!(app.status, "Output cleared");
}

#[test]
fn form_value_is_trimmed_and_missing_key_is_empty() {
    let mut app = App::new();
    set(&mut app, 0, "private_key", "  0xabc \t");
    assert_eq!(app.forms[0].value("private_key"), "0xabc");
    assert_eq!(app.forms[0].value("nothing"), "");
}

#[test]
fn check_address_command() {
    let mut app = App::new();
    let e = build_command(&app.forms[0], None).unwrap_err();
    assert_eq!(e.text(), "Private key is required.");
    set(&mut app, 0, "private_key", " 0xkey ");
    let args = build_command(&app.forms[0], None).unwrap();
    assert_eq!(args, strings(&["wallet", "address", "--private-key", "0xkey"]));
}

#[test]
fn create_wallet_command_without_saving() {
    let app = App::new();
    let args = build_command(&app.forms[1], Some("/home/z")).unwrap();
    assert_eq!(args, strings(&["wallet", "new"]));
}

#[test]
fn create_wallet_command_with_number() {
    let mut app = App::new();
    set(&mut app, 1, "number", "+007");
    let args = build_command(&app.forms[1], None).unwrap();
    assert_eq!(args, strings(&["wallet", "new", "--number", "7"]));
    set(&mut app, 1, "number", "");
    let args = build_command(&app.forms[1], None).unwrap();
    assert_eq!(args, strings(&["wallet", "new"]));
}

#[test]
fn create_wallet_number_errors() {
    let mut app = App::new();
    set(&mut app, 1, "number", "abc");
    let e = build_command(&app.forms[1], None).unwrap_err();
    assert_eq!(e.text(), "Number must be a positive integer.");
    set(&mut app, 1, "number", "0");
    let e = build_command(&app.forms[1], None).unwrap_err();
    assert_eq!(e.text(), "Number must be at least 1.");
    set(&mut app, 1, "number", "-1");
    assert!(build_command(&app.forms[1], None).is_err());
    set(&mut app, 1, "number", "99999999999999999999999");
    let e = build_command(&app.forms[1], None).unwrap_err();
    assert_eq!(e.text(), "Number must be a positive integer.");
}

#[test]
fn create_wallet_saving_needs_password() {
    let mut app = App::new();
    set(&mut app, 1, "account_name", "main");
    let e = build_command(&app.forms[1], None).unwrap_err();
    assert_eq!(e.text(), "Password is required when saving a new wallet to a keystore.");
    set(&mut app, 1, "password", "pw");
    let args = build_command(&app.forms[1], Some("/home/z")).unwrap();
    assert_eq!(
        args,
        strings(&["wallet", "new", "/home/z/.foundry/keystores", "main", "--unsafe-password", "pw"])
    );
    set(&mut app, 1, "keystore_dir", "~/keys");
    set(&mut app, 1, "account_name", "");
    let args = build_command(&app.forms[1], Some("/home/z")).unwrap();
    assert_eq!(args, strings(&["wallet", "new", "/home/z/keys", "--unsafe-password", "pw"]));
}

#[test]
fn import_wallet_command() {
    let mut app = App::new();
    let e = build_command(&app.forms[2], None).unwrap_err();
    assert_eq!(e.text(), "Account name is required.");
    set(&mut app, 2, "account_name", "acct");
    let e = build_command(&app.forms[2], None).unwrap_err();
    assert_eq!(e.text(), "Private key is required.");
    set(&mut app, 2, "private_key", "0xkey");
    let e = build_command(&app.forms[2], None).unwrap_err();
    assert_eq!(e.text(), "Password is required.");
    set(&mut app, 2, "password", "pw");
    let args = build_command(&app.forms[2], None).unwrap();
    assert_eq!(
        args,
        strings(&["wallet", "import", "acct", "--private-key", "0xkey", "--unsafe-password", "pw"])
    );
    set(&mut app, 2, "keystore_dir", " /tmp/ks ");
    let args = build_command(&app.forms[2], None).unwrap();
    assert_eq!(&args[..4], &strings(&["wallet", "import", "--keystore-dir", "/tmp/ks"])[..]);
}

#[test]
fn normalize_path_cases() {
    assert_eq!(normalize_path("   ", Some("/h")), "");
    assert_eq!(normalize_path("~", Some("/h")), "/h");
    assert_eq!(normalize_path("~", None), "~");
    assert_eq!(normalize_path(" ~/a/b ", Some("/h")), "/h/a/b");
    assert_eq!(normalize_path("~/a", None), "~/a");
    assert_eq!(normalize_path("~user", Some("/h")), "~user");
    assert_eq!(normalize_path("/abs", Some("/h")), "/abs");
}

#[test]
fn default_keystore_dir() {
    assert_eq!(default_foundry_keystore_dir(Some("/h")), "/h/.foundry/keystores");
    assert_eq!(default_foundry_keystore_dir(None), "~/.foundry/keystores");
}

#[test]
fn required_value_reports_message() {
    let app = App::new();
    let e = required_value(&app.forms[0], "private_key", "needed").unwrap_err();
    assert_eq!(e.text(), "needed");
}

#[test]
fn preview_quotes_arguments_with_spaces() {
    let args = strings(&["wallet", "new", "/my dir", "pw"]);
    assert_eq!(format_command_preview(&args), "wallet new \"/my dir\" pw");
    assert_eq!(format_command_preview(&[]), "");
}

#[test]
fn output_combination() {
    assert_eq!(combined_output("  ", "\n"), "(no output)");
    assert_eq!(combined_output("", " err "), "err");
    assert_eq!(combined_output(" out ", ""), "out");
    assert_eq!(combined_output("out\n", "err\n"), "out\n\nerr");
}

#[test]
fn cast_result_decodes_bytes() {
    let args = strings(&["wallet", "address", "--private-key", "k"]);
    let r = cast_command_result(&args, b"0xabc\n", &[0xff, b'x'], false);
    assert_eq!(r.command_preview, "cast wallet address --private-key k");
    assert_eq!(r.output, "0xabc\n\n\u{fffd}x");
    assert!(!r.success);
}

#[test]
fn run_records_refusal_and_results() {
    let mut app = App::new();
    assert!(app.run(None).is_none());
    assert_eq!(app.output, "Private key is required.");
    assert_eq!(app.status, "Missing or invalid input");

    set(&mut app, 0, "private_key", "k");
    let args = app.run(None).unwrap();
    assert_eq!(args, strings(&["wallet", "address", "--private-key", "k"]));

    app.record_command_result(CommandResult {
        command_preview: "cast wallet address --private-key k".to_string(),
        output: "0x1".to_string(),
        success: true,
    });
    assert_eq!(app.status, "Command finished");
    assert_eq!(app.output, "0x1");

    app.record_command_result(CommandResult {
        command_preview: "p".to_string(),
        output: "o".to_string(),
        success: false,
    });
    assert_eq!(app.status, "cast wallet returned a non-zero status");

    let err = AppError::command_launch("cast wallet".to_string(), "not found".to_string());
    app.record_launch_failure(&strings(&["wallet", "a b"]), &err);
    assert_eq!(app.last_command, "cast wallet a b");
    assert_eq!(app.output, "failed to launch cast wallet: not found");
    assert_eq!(app.status, "Failed to launch cast");
}

#[test]
fn error_texts() {
    assert_eq!(AppError::message("m".to_string()).text(), "m");
    assert_eq!(
        AppError::io("failed to draw".to_string(), "broken pipe".to_string()).text(),
        "failed to draw: broken pipe"
    );
}

#[test]
fn keys_drive_the_app() {
    let mut app = App::new();
    assert_eq!(app.handle_key(Key::Down), KeyOutcome::Continue);
    assert_eq!(app.selected_action, 1);
    app.handle_key(Key::Char('x'));
    assert_eq!(app.forms[1].fields[0].value, "");
    app.handle_key(Key::Tab);
    assert_eq!(app.focus, Focus::Fields);
    app.handle_key(Key::Char('x'));
    app.handle_key(Key::Char('y'));
    app.handle_key(Key::Backspace);
    assert_eq!(app.forms[1].fields[0].value, "x");
    app.handle_key(Key::Up);
    assert_eq!(app.selected_field, 3);
    assert_eq!(app.handle_key(Key::Enter), KeyOutcome::Run);
    app.handle_key(Key::Esc);
    assert_eq!(app.status, "Output cleared");
    app.handle_key(Key::Left);
    assert_eq!(app.focus, Focus::Actions);
    assert_eq!(app.handle_key(Key::Char('q')), KeyOutcome::Quit);
}

#[test]
fn text_helpers() {
    assert_eq!(trim("\u{a0} a b \u{3000}"), "a b");
    assert_eq!(parse_usize("12"), Some(12));
    assert_eq!(parse_usize("+3"), Some(3));
    assert_eq!(parse_usize("+"), None);
    assert_eq!(parse_usize(""), None);
    assert_eq!(parse_usize("1 2"), None);
    assert_eq!(parse_usize("18446744073709551615"), Some(usize::MAX));
    assert_eq!(usize_to_string(0), "0");
    assert_eq!(usize_to_string(1234567), "1234567");
    assert_eq!(parse_usize(&usize_to_string(98765)), Some(98765));
    assert_eq!(join(&strings(&["a", "b", "c"]), ", "), "a, b, c");
}

#[test]
fn screen_decisions() {
    assert!(is_compact(120, 27));
    assert!(is_compact(89, 40));
    assert!(!is_compact(90, 28));
    assert!(is_stacked_body(100, 11));
    assert!(!is_stacked_body(95, 12));
    assert_eq!(hero_height(true), 6);
    assert_eq!(hero_height(false), 10);
    assert_eq!(fields_panel_height(1, true), 4);
    assert_eq!(fields_panel_height(4, true), 6);
    assert_eq!(fields_panel_height(1, false), 6);
    assert_eq!(fields_panel_height(4, false), 10);
    assert_eq!(actions_title(Focus::Actions), " Wallet Actions [focused] ");
    assert_eq!(actions_title(Focus::Fields), " Wallet Actions ");
    assert_eq!(fields_title(Focus::Fields), " Wallet Fields [focused] ");
    assert_eq!(output_title("cast x"), " Output | cast x ");
}

#[test]
fn fields_are_shown_with_secrets_masked() {
    let mut app = App::new();
    let f = &app.forms[0].fields[0];
    assert_eq!(field_display_text(f), "paste your private key here");
    assert_eq!(cursor_text(f), "");
    set(&mut app, 0, "private_key", "ab");
    assert_eq!(field_display_text(&app.forms[0].fields[0]), "****");
    set(&mut app, 0, "private_key", "abcdef");
    assert_eq!(cursor_text(&app.forms[0].fields[0]), "******");
    app.forms[0].fields[0].sensitive = false;
    assert_eq!(field_display_text(&app.forms[0].fields[0]), "abcdef");
}

#[test]
fn cursor_stands_after_label_and_text() {
    assert_eq!(cursor_position(10, 5, 100, 11, 4, 0), (30, 6));
    assert_eq!(cursor_position(10, 5, 30, 11, 40, 2), (28, 10));
    assert_eq!(cursor_position(65530, 65534, 65535, 1, 1, 1), (65533, 65535));
}

#[test]
fn whitespace_matches_the_standard_library() {
    for code in 0u32..0x3100 {
        if let Some(c) = char::from_u32(code) {
            assert_eq!(is_whitespace(c), c.is_whitespace(), "code point {:x}", code);
        }
    }
}

#[test]
fn ascii_lowercase_matches_the_standard_library() {
    for code in 0u32..0x300 {
        if let Some(c) = char::from_u32(code) {
            assert_eq!(ascii_lowercase(c), c.to_ascii_lowercase());
        }
    }
}

#[test]
fn str_eq_compares_characters() {
    assert!(str_eq("", ""));
    assert!(str_eq("0xab", "0xab"));
    assert!(!str_eq("0xab", "0xAb"));
    assert!(!str_eq("ab", "abc"));
    assert!(!str_eq("é", "e"));
}

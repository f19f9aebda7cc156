use nebula_ssh::ai_service::api_error_message;
use nebula_ssh::ai_service::chat_request;
use nebula_ssh::ai_service::payload_of_line;
use nebula_ssh::ai_service::stream_error_message;
use nebula_ssh::ai_service::stream_payloads;
use nebula_ssh::ai_service::trim_trailing_slashes;
use nebula_ssh::ai_service::ChatRequest;
use nebula_ssh::db_commands::save_server;
use nebula_ssh::db_commands::SaveServer;
use nebula_ssh::login::LoginAction;
use nebula_ssh::models::AppSettings;
use nebula_ssh::models::Server;
use nebula_ssh::monitor::free_memory;
use nebula_ssh::monitor::is_mac;
use nebula_ssh::monitor::open_monitor_session;
use nebula_ssh::monitor::stats_command;
use nebula_ssh::monitor::system_name_command;
use nebula_ssh::monitor::CommandAction;
use nebula_ssh::monitor::CommandEvent;
use nebula_ssh::monitor::CommandRun;
use nebula_ssh::monitor::MonitorState;
use nebula_ssh::repositories::history::history_page;
use nebula_ssh::repositories::history::search_pattern;
use nebula_ssh::repositories::settings::get_all_settings;
use nebula_ssh::repositories::settings::history_limit_from;
use nebula_ssh::repositories::settings::update_settings;
use nebula_ssh::repositories::settings::StoredPair;
use nebula_ssh::repositories::settings::StoredSettings;
use nebula_ssh::local_monitor::cpu_model_text;
use nebula_ssh::local_monitor::disk_summary;
use nebula_ssh::local_monitor::os_version_text;
use nebula_ssh::local_monitor::DiskSummary;
use nebula_ssh::security::after_key_check;
use nebula_ssh::security::derive_key;
use nebula_ssh::security::format_key;
use nebula_ssh::security::plan_encryption;
use nebula_ssh::security::EncryptionSetup;
use nebula_ssh::security::ExistingDatabase;
use nebula_ssh::session::ErrorKind;
use nebula_ssh::sftp::SideLogin;
use nebula_ssh::ssh::Endpoint;
use nebula_ssh::ssh::SshConnection;
use nebula_ssh::ssh::SshState;
use nebula_ssh::units::format_gigabytes;
use nebula_ssh::units::megabytes;

#[test]
fn default_settings_are_those_of_a_fresh_installation() {
    let s = AppSettings::default();
    assert_eq!(s.history_limit, 10000);
    assert_eq!(s.theme, "default");
    assert_eq!(s.app_theme, "system");
    assert_eq!(s.ai_provider, "openai");
    assert_eq!(s.ai_api_key, None);
    assert_eq!(s.ai_model, None);
    assert_eq!(s.ai_base_url, None);
}

#[test]
fn settings_are_read_with_defaults_for_what_is_missing() {
    let s = get_all_settings(StoredSettings {
        history_limit: None,
        theme: None,
        app_theme: None,
        ai_provider: None,
        ai_api_key: None,
        ai_model: None,
        ai_base_url: None,
    });
    assert_eq!(s.history_limit, 10000);
    assert_eq!(s.theme, "default");
    assert_eq!(s.app_theme, "system");
    assert_eq!(s.ai_provider, "openai");
    assert_eq!(s.ai_api_key, None);

    let s = get_all_settings(StoredSettings {
        history_limit: Some("250".to_string()),
        theme: Some("dracula".to_string()),
        app_theme: Some("dark".to_string()),
        ai_provider: Some("local".to_string()),
        ai_api_key: Some("sk".to_string()),
        ai_model: Some("m".to_string()),
        ai_base_url: Some("http://localhost/".to_string()),
    });
    assert_eq!(s.history_limit, 250);
    assert_eq!(s.theme, "dracula");
    assert_eq!(s.app_theme, "dark");
    assert_eq!(s.ai_provider, "local");
    assert_eq!(s.ai_api_key, Some("sk".to_string()));
    assert_eq!(s.ai_model, Some("m".to_string()));
    assert_eq!(s.ai_base_url, Some("http://localhost/".to_string()));

    assert_eq!(history_limit_from(&Some("many".to_string())), 10000);
    assert_eq!(history_limit_from(&Some("".to_string())), 10000);
    assert_eq!(history_limit_from(&Some("-5".to_string())), -5);
    assert_eq!(history_limit_from(&Some("99999999999".to_string())), 10000);
}

fn pair(key: &str, value: &str) -> StoredPair {
    StoredPair { key: key.to_string(), value: value.to_string() }
}

#[test]
fn settings_are_written_key_by_key() {
    let mut s = AppSettings::default();
    assert_eq!(
        update_settings(&s),
        vec![
            pair("history_limit", "10000"),
            pair("theme", "default"),
            pair("app_theme", "system"),
            pair("ai_provider", "openai"),
        ]
    );
    s.history_limit = -3;
    s.ai_model = Some("gpt".to_string());
    s.ai_api_key = Some("sk".to_string());
    assert_eq!(
        update_settings(&s),
        vec![
            pair("history_limit", "-3"),
            pair("theme", "default"),
            pair("app_theme", "system"),
            pair("ai_provider", "openai"),
            pair("ai_api_key", "sk"),
            pair("ai_model", "gpt"),
        ]
    );
    s.ai_base_url = Some("u".to_string());
    assert_eq!(update_settings(&s).len(), 7);
    assert_eq!(update_settings(&s)[6], pair("ai_base_url", "u"));
}

#[test]
fn history_queries_have_a_default_page_and_a_pattern() {
    assert_eq!(history_page(None), 100);
    assert_eq!(history_page(Some(7)), 7);
    assert_eq!(history_page(Some(-1)), -1);
    assert_eq!(search_pattern("git"), "%git%");
    assert_eq!(search_pattern(""), "%%");
}

fn server(id: Option<i64>) -> Server {
    Server {
        id,
        name: "n".to_string(),
        host: "h".to_string(),
        port: 22,
        username: "u".to_string(),
        password: None,
        private_key_path: None,
        group: None,
        tags: None,
        color: None,
        created_at: 0,
        updated_at: 0,
        forwarding_rules: None,
        jump_host_id: None,
    }
}

#[test]
fn a_server_with_an_identifier_is_updated_and_one_without_is_created() {
    assert_eq!(save_server(&server(Some(42))), SaveServer::Update(42));
    assert_eq!(save_server(&server(None)), SaveServer::Create);
}

#[test]
fn the_database_key_is_the_hex_digest_of_the_password() {
    assert_eq!(
        derive_key(""),
        Ok("e3b0c44298fc1c149afbf4c8996fb92427ae41e4649b934ca495991b7852b855".to_string())
    );
    assert_eq!(
        derive_key("password"),
        Ok("5e884898da28047151d0e56f8dc6292773603d0d6aabbdd62a11ef721d1542d8".to_string())
    );
    assert_eq!(
        derive_key("hello world"),
        Ok("b94d27b9934d3e08a52e52d7da7dabfac484efe37a5380ee9088f7ace2efcde9".to_string())
    );
    assert_eq!(derive_key("p\u{e4}ss").unwrap().len(), 64);
    assert_ne!(derive_key("a"), derive_key("b"));
    assert_eq!(format_key("00ff"), "x'00ff'");
    assert_eq!(format_key(""), "x''");
}

#[test]
fn memory_is_shown_in_gigabytes_with_one_decimal() {
    assert_eq!(format_gigabytes(0), "0.0 GB");
    assert_eq!(format_gigabytes(512), "0.5 GB");
    assert_eq!(format_gigabytes(1024), "1.0 GB");
    assert_eq!(format_gigabytes(16384), "16.0 GB");
    assert_eq!(format_gigabytes(1536), "1.5 GB");
    assert_eq!(format_gigabytes(7977), "7.8 GB");
    let mut mb: u64 = 0;
    while mb < 40000 {
        assert_eq!(format_gigabytes(mb), format!("{:.1} GB", mb as f64 / 1024.0), "{}", mb);
        mb += 1;
    }
    for mb in [u64::MAX, u64::MAX - 1, 1 << 53, (1 << 53) + 1, (1 << 60) + 12345] {
        assert_eq!(format_gigabytes(mb), format!("{:.1} GB", mb as f64 / 1024.0), "{}", mb);
    }
    assert_eq!(megabytes(0), 0);
    assert_eq!(megabytes(1048575), 0);
    assert_eq!(megabytes(1048576), 1);
    assert_eq!(megabytes(17179869184), 16384);
    assert_eq!(free_memory(100, 30), 70);
    assert_eq!(free_memory(30, 100), 0);
    assert_eq!(free_memory(5, 5), 0);
}

#[test]
fn the_stats_command_depends_on_the_system() {
    assert_eq!(system_name_command(), "uname -s");
    assert!(is_mac("Darwin\n"));
    assert!(is_mac("some Darwin kernel"));
    assert!(!is_mac("Linux\n"));
    assert!(!is_mac(""));
    assert!(!is_mac("darwin"));
    let linux = stats_command(false);
    assert!(linux.starts_with("(export TERM=xterm; echo '---UPTIME---'; cat /proc/uptime;"));
    assert!(linux.ends_with("echo '---CORES---'; nproc;) 2>&1"));
    assert!(linux.contains("cut -d'\"' -f2"));
    let mac = stats_command(true);
    assert!(mac.starts_with("(export TERM=xterm; echo '---UPTIME---'; sysctl -n kern.boottime;"));
    assert!(mac.ends_with("sysctl -n hw.ncpu;) 2>&1"));
}

#[test]
fn command_output_is_read_until_its_end() {
    let (mut run, first) = CommandRun::begin();
    assert_eq!(first, CommandAction::CheckClock);
    assert_eq!(run.step(CommandEvent::Elapsed(0)), CommandAction::Read);
    assert_eq!(run.step(CommandEvent::Chunk("Lin".to_string())), CommandAction::CheckClock);
    assert_eq!(run.step(CommandEvent::Elapsed(3)), CommandAction::Read);
    assert_eq!(run.step(CommandEvent::WouldBlock), CommandAction::Sleep(10));
    assert_eq!(run.step(CommandEvent::Tick), CommandAction::CheckClock);
    assert_eq!(run.step(CommandEvent::Elapsed(14)), CommandAction::Read);
    assert_eq!(run.step(CommandEvent::Chunk("ux\n".to_string())), CommandAction::CheckClock);
    assert_eq!(run.step(CommandEvent::Elapsed(15)), CommandAction::Read);
    assert_eq!(run.step(CommandEvent::Eof), CommandAction::WaitClose);
    assert_eq!(run.step(CommandEvent::Tick), CommandAction::Finish("Linux\n".to_string()));
    assert_eq!(run.step(CommandEvent::Tick), CommandAction::Stop);
}

#[test]
fn command_output_reading_gives_up_after_the_time_limit_or_a_failure() {
    let (mut run, _) = CommandRun::begin();
    run.step(CommandEvent::Elapsed(1));
    run.step(CommandEvent::Chunk("partial".to_string()));
    assert_eq!(run.step(CommandEvent::Elapsed(5000)), CommandAction::Read);
    run.step(CommandEvent::WouldBlock);
    run.step(CommandEvent::Tick);
    assert_eq!(run.step(CommandEvent::Elapsed(5001)), CommandAction::WaitClose);
    assert_eq!(run.step(CommandEvent::Failed), CommandAction::Finish("partial".to_string()));

    let (mut run, _) = CommandRun::begin();
    run.step(CommandEvent::Elapsed(1));
    assert_eq!(run.step(CommandEvent::Failed), CommandAction::WaitClose);
    assert_eq!(run.step(CommandEvent::Tick), CommandAction::Finish(String::new()));
}

#[test]
fn a_monitor_session_is_opened_once() {
    let mut ssh: SshState<u32> = SshState::new();
    ssh.register(
        "a".to_string(),
        SshConnection::new(
            Endpoint {
                host: "10.1.1.1".to_string(),
                port: 22,
                username: "u".to_string(),
                password: Some("p".to_string()),
                private_key: None,
                jump_host_id: None,
            },
            None,
            None,
        ),
    );
    let mut monitor: MonitorState<u32> = MonitorState::new();
    match open_monitor_session(&ssh, &monitor, "a") {
        Ok(SideLogin::Open(_, first)) => {
            assert_eq!(first, LoginAction::ParseAddress { address: "10.1.1.1:22".to_string() })
        },
        _ => panic!("expected a login"),
    }
    match open_monitor_session(&ssh, &monitor, "ghost") {
        Err(e) => {
            assert_eq!(e.kind, ErrorKind::NotFound);
            assert_eq!(e.message, "SSH session not found");
        },
        _ => panic!("expected a failure"),
    }
    monitor.register("a".to_string(), 3);
    assert!(matches!(open_monitor_session(&ssh, &monitor, "a"), Ok(SideLogin::AlreadyOpen)));
    assert_eq!(monitor.get("a"), Some(&3));
    assert_eq!(monitor.unregister("a"), Some(3));
    assert!(!monitor.contains("a"));
}

#[test]
fn a_chat_request_needs_a_key_and_has_defaults() {
    let mut s = AppSettings::default();
    assert_eq!(chat_request(&s), Err("AI API Key not configured".to_string()));
    s.ai_api_key = Some("sk-1".to_string());
    assert_eq!(
        chat_request(&s),
        Ok(ChatRequest {
            url: "https://api.openai.com/v1/chat/completions".to_string(),
            authorization: "Bearer sk-1".to_string(),
            model: "gpt-3.5-turbo".to_string(),
        })
    );
    s.ai_base_url = Some("http://localhost:11434/v1///".to_string());
    s.ai_model = Some("llama".to_string());
    assert_eq!(
        chat_request(&s),
        Ok(ChatRequest {
            url: "http://localhost:11434/v1/chat/completions".to_string(),
            authorization: "Bearer sk-1".to_string(),
            model: "llama".to_string(),
        })
    );
    for u in ["", "/", "//", "a/", "a//b", "/a", "a/b/"] {
        assert_eq!(trim_trailing_slashes(u), u.trim_end_matches('/'), "{:?}", u);
    }
}

#[test]
fn stream_payloads_are_the_data_lines_up_to_the_end_marker() {
    assert_eq!(stream_payloads(""), Vec::<String>::new());
    assert_eq!(stream_payloads("data: {\"a\":1}\n\n"), vec!["{\"a\":1}".to_string()]);
    assert_eq!(
        stream_payloads("data: one\r\n\r\n  data: two  \nevent: ping\ndata:three\ndata: \n"),
        vec!["one".to_string(), "two".to_string()]
    );
    assert_eq!(
        stream_payloads("data: one\n\ndata: [DONE]\n\ndata: late\n"),
        vec!["one".to_string()]
    );
    assert_eq!(stream_payloads("data: [DONE]"), Vec::<String>::new());
    assert_eq!(stream_payloads("data: x"), vec!["x".to_string()]);
    assert_eq!(stream_payloads("data:  [DONE]\n"), vec![" [DONE]".to_string()]);
    assert_eq!(payload_of_line("  data: hi \r"), Some("hi".to_string()));
    assert_eq!(payload_of_line("data:"), None);
    assert_eq!(payload_of_line("data: "), None);
    assert_eq!(payload_of_line("Data: x"), None);
    assert_eq!(api_error_message("quota"), "API Error: quota");
    assert_eq!(stream_error_message("reset"), "Stream error: reset");
}

#[test]
fn encryption_is_set_up_by_the_size_of_the_database_file() {
    assert_eq!(plan_encryption(false, None), EncryptionSetup::CreateNew);
    assert_eq!(plan_encryption(false, Some(1_000_000)), EncryptionSetup::CreateNew);
    assert_eq!(plan_encryption(true, None), EncryptionSetup::CheckExisting);
    assert_eq!(plan_encryption(true, Some(0)), EncryptionSetup::CheckExisting);
    assert_eq!(plan_encryption(true, Some(102400)), EncryptionSetup::CheckExisting);
    assert_eq!(plan_encryption(true, Some(102401)), EncryptionSetup::MigrateExisting);
    assert_eq!(plan_encryption(true, Some(u64::MAX)), EncryptionSetup::MigrateExisting);
    assert_eq!(after_key_check(true, true, true), ExistingDatabase::Keep);
    assert_eq!(after_key_check(true, true, false), ExistingDatabase::Replace);
    assert_eq!(after_key_check(true, false, false), ExistingDatabase::Replace);
    assert_eq!(after_key_check(false, false, false), ExistingDatabase::Replace);
}

#[test]
fn the_local_panel_shows_the_first_disk_and_the_system() {
    assert_eq!(
        disk_summary(Some((500_000_000_000, 100_000_000_000))),
        DiskSummary {
            disk_total: "465.7GB".to_string(),
            disk_used: "372.5GB".to_string(),
            used_bytes: 400_000_000_000,
            total_bytes: 500_000_000_000,
        }
    );
    assert_eq!(
        disk_summary(None),
        DiskSummary {
            disk_total: "0B".to_string(),
            disk_used: "0B".to_string(),
            used_bytes: 0,
            total_bytes: 0,
        }
    );
    assert_eq!(disk_summary(Some((0, 0))).disk_total, "0.0B");
    assert_eq!(
        os_version_text(Some("Ubuntu".to_string()), Some("22.04".to_string())),
        "Ubuntu 22.04"
    );
    assert_eq!(os_version_text(None, Some("14.1".to_string())), "Unknown 14.1");
    assert_eq!(os_version_text(Some("Arch".to_string()), None), "Arch ");
    assert_eq!(os_version_text(None, None), "Unknown ");
    assert_eq!(cpu_model_text(Some("Apple M2")), "Apple M2");
    assert_eq!(cpu_model_text(None), "Unknown");
}

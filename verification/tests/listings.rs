use nebula_ssh::local_files::list_local_directory;
use nebula_ssh::local_files::name_comes_before;
use nebula_ssh::local_files::LocalItem;
use nebula_ssh::local_files::LocalMetadata;
use nebula_ssh::local_files::LocalPermissions;
use nebula_ssh::sftp::download_file;
use nebula_ssh::sftp::init_sftp;
use nebula_ssh::sftp::list_directory;
use nebula_ssh::sftp::remote_entries;
use nebula_ssh::sftp::upload_file;
use nebula_ssh::sftp::FileEntry;
use nebula_ssh::sftp::RemoteItem;
use nebula_ssh::sftp::RemoteStat;
use nebula_ssh::sftp::SftpRequest;
use nebula_ssh::sftp::SftpState;
use nebula_ssh::sftp::SideLogin;
use nebula_ssh::login::LoginAction;
use nebula_ssh::session::ErrorKind;
use nebula_ssh::ssh::Endpoint;
use nebula_ssh::ssh::SshConnection;
use nebula_ssh::ssh::SshState;
use nebula_ssh::timestamps::format_timestamp;

fn stat(is_dir: bool, size: Option<u64>, mtime: Option<u64>, perm: Option<u32>) -> RemoteStat {
    RemoteStat { is_dir, size, mtime, perm, uid: Some(1000), gid: Some(100) }
}

#[test]
fn timestamps_show_the_minute_in_universal_time() {
    assert_eq!(format_timestamp(0), "1970-01-01 00:00");
    assert_eq!(format_timestamp(59), "1970-01-01 00:00");
    assert_eq!(format_timestamp(60), "1970-01-01 00:01");
    assert_eq!(format_timestamp(1431648000), "2015-05-15 00:00");
    assert_eq!(format_timestamp(1700000000), "2023-11-14 22:13");
    assert_eq!(format_timestamp(951782400), "2000-02-29 00:00");
    assert_eq!(format_timestamp(u64::MAX), "1969-12-31 23:59");
    assert_eq!(format_timestamp(i64::MAX as u64), "1970-01-01 00:00");
    assert_eq!(format_timestamp(1u64 << 63), "1970-01-01 00:00");
}

#[test]
fn remote_rows_skip_the_dot_entries_and_format_each_column() {
    let items = vec![
        RemoteItem { name: ".".to_string(), stat: stat(true, Some(4096), Some(0), Some(0o40755)) },
        RemoteItem { name: "..".to_string(), stat: stat(true, Some(4096), Some(0), Some(0o40755)) },
        RemoteItem {
            name: "notes.txt".to_string(),
            stat: stat(false, Some(1536), Some(1431648000), Some(0o100644)),
        },
        RemoteItem { name: "src".to_string(), stat: stat(true, Some(4096), Some(60), Some(0o40755)) },
        RemoteItem {
            name: "...".to_string(),
            stat: RemoteStat {
                is_dir: false,
                size: None,
                mtime: None,
                perm: None,
                uid: None,
                gid: None,
            },
        },
        RemoteItem { name: "empty".to_string(), stat: stat(false, Some(0), None, Some(0o7)) },
    ];
    let rows = remote_entries(&items);
    assert_eq!(
        rows,
        vec![
            FileEntry {
                name: "notes.txt".to_string(),
                entry_type: "file".to_string(),
                size: "1.5 KB".to_string(),
                last_modified: "2015-05-15 00:00".to_string(),
                permissions: "644".to_string(),
                owner: "1000".to_string(),
                group: "100".to_string(),
            },
            FileEntry {
                name: "src".to_string(),
                entry_type: "directory".to_string(),
                size: "4.0 KB".to_string(),
                last_modified: "1970-01-01 00:01".to_string(),
                permissions: "755".to_string(),
                owner: "1000".to_string(),
                group: "100".to_string(),
            },
            FileEntry {
                name: "...".to_string(),
                entry_type: "file".to_string(),
                size: "0 B".to_string(),
                last_modified: "1970-01-01 00:00".to_string(),
                permissions: "0".to_string(),
                owner: "0".to_string(),
                group: "0".to_string(),
            },
            FileEntry {
                name: "empty".to_string(),
                entry_type: "file".to_string(),
                size: "0 B".to_string(),
                last_modified: "1970-01-01 00:00".to_string(),
                permissions: "7".to_string(),
                owner: "1000".to_string(),
                group: "100".to_string(),
            },
        ]
    );
    assert_eq!(remote_entries(&Vec::new()), Vec::new());
}

#[test]
fn sftp_requests_need_a_registered_session() {
    let mut state: SftpState<u32> = SftpState::new();
    assert!(state.register("a".to_string(), 5).is_none());
    assert!(state.contains("a"));
    match list_directory(&state, "a".to_string(), "/var".to_string()) {
        Ok(SftpRequest::List { channel, path }) => {
            assert_eq!(*channel, 5);
            assert_eq!(path, "/var");
        },
        _ => panic!("expected a listing request"),
    }
    match download_file(&state, "a".to_string(), "/r".to_string(), "/l".to_string()) {
        Ok(SftpRequest::Download { channel, remote_path, local_path }) => {
            assert_eq!(*channel, 5);
            assert_eq!(remote_path, "/r");
            assert_eq!(local_path, "/l");
        },
        _ => panic!("expected a download request"),
    }
    match upload_file(&state, "a".to_string(), "/l".to_string(), "/r".to_string()) {
        Ok(SftpRequest::Upload { channel, local_path, remote_path }) => {
            assert_eq!(*channel, 5);
            assert_eq!(local_path, "/l");
            assert_eq!(remote_path, "/r");
        },
        _ => panic!("expected an upload request"),
    }
    for result in [
        list_directory(&state, "ghost".to_string(), "/".to_string()),
        download_file(&state, "ghost".to_string(), "/r".to_string(), "/l".to_string()),
        upload_file(&state, "ghost".to_string(), "/l".to_string(), "/r".to_string()),
    ] {
        match result {
            Err(e) => {
                assert_eq!(e.kind, ErrorKind::NotFound);
                assert_eq!(e.message, "SFTP session not found");
            },
            Ok(_) => panic!("expected a failure"),
        }
    }
    assert_eq!(state.unregister("a"), Some(5));
    assert_eq!(state.unregister("a"), None);
}

#[test]
fn init_sftp_logs_in_with_the_credentials_of_the_session() {
    let mut ssh: SshState<u32> = SshState::new();
    ssh.register(
        "a".to_string(),
        SshConnection::new(
            Endpoint {
                host: "files.example.org".to_string(),
                port: 2022,
                username: "bob".to_string(),
                password: None,
                private_key: Some("key".to_string()),
                jump_host_id: None,
            },
            None,
            None,
        ),
    );
    let mut sftp: SftpState<u32> = SftpState::new();
    match init_sftp(&ssh, &sftp, "a".to_string()) {
        Ok(SideLogin::Open(_, first)) => assert_eq!(
            first,
            LoginAction::Dial { address: "files.example.org:2022".to_string(), timeout_secs: None }
        ),
        _ => panic!("expected a login"),
    }
    match init_sftp(&ssh, &sftp, "ghost".to_string()) {
        Err(e) => {
            assert_eq!(e.kind, ErrorKind::NotFound);
            assert_eq!(e.message, "SSH session not found");
        },
        _ => panic!("expected a failure"),
    }
    sftp.register("a".to_string(), 1);
    assert!(matches!(init_sftp(&ssh, &sftp, "a".to_string()), Ok(SideLogin::AlreadyOpen)));
    sftp.register("ghost".to_string(), 2);
    assert!(matches!(init_sftp(&ssh, &sftp, "ghost".to_string()), Ok(SideLogin::AlreadyOpen)));
}

fn local(name: &str, is_dir: bool, len: u64) -> LocalItem {
    LocalItem {
        name: name.to_string(),
        metadata: LocalMetadata {
            is_dir,
            is_file: !is_dir,
            len,
            modified_secs: Some(1431648000),
            permissions: LocalPermissions::Mode(if is_dir { 0o40755 } else { 0o100600 }),
        },
    }
}

#[test]
fn local_rows_put_directories_first_and_sort_by_name() {
    let items = vec![
        local("zeta.txt", false, 10),
        local("src", true, 4096),
        local("Alpha", false, 2048),
        local("docs", true, 4096),
        local("alpha", false, 0),
        local("Zoo", true, 4096),
    ];
    let rows = list_local_directory(&items);
    let names: Vec<&str> = rows.iter().map(|r| r.name.as_str()).collect();
    assert_eq!(names, vec!["Zoo", "docs", "src", "Alpha", "alpha", "zeta.txt"]);
    assert_eq!(rows[0].entry_type, "directory");
    assert_eq!(rows[0].size, "-");
    assert_eq!(rows[0].permissions, "755");
    assert_eq!(rows[0].last_modified, "2015-05-15 00:00");
    assert_eq!(rows[0].owner, "");
    assert_eq!(rows[0].group, "");
    assert_eq!(rows[3].entry_type, "file");
    assert_eq!(rows[3].size, "2.0 KB");
    assert_eq!(rows[3].permissions, "600");
    assert_eq!(rows[4].size, "0.0 B");
}

#[test]
fn local_rows_show_dashes_and_flags_where_the_system_tells_less() {
    let items = vec![
        LocalItem {
            name: "socket".to_string(),
            metadata: LocalMetadata {
                is_dir: false,
                is_file: false,
                len: 99,
                modified_secs: None,
                permissions: LocalPermissions::ReadOnly(true),
            },
        },
        LocalItem {
            name: "file".to_string(),
            metadata: LocalMetadata {
                is_dir: false,
                is_file: true,
                len: 1,
                modified_secs: Some(0),
                permissions: LocalPermissions::ReadOnly(false),
            },
        },
    ];
    let rows = list_local_directory(&items);
    assert_eq!(rows[0].name, "file");
    assert_eq!(rows[0].permissions, "rw-");
    assert_eq!(rows[0].size, "1.0 B");
    assert_eq!(rows[1].name, "socket");
    assert_eq!(rows[1].entry_type, "file");
    assert_eq!(rows[1].size, "-");
    assert_eq!(rows[1].last_modified, "-");
    assert_eq!(rows[1].permissions, "r--");
}

#[test]
fn local_order_agrees_with_a_stable_sort() {
    let mut seed: u64 = 12345;
    for round in 0..40 {
        let mut items = Vec::new();
        let count = (round % 9) + 1;
        for k in 0..count {
            seed = seed.wrapping_mul(6364136223846793005).wrapping_add(1442695040888963407);
            let letters = ["a", "b", "ab", "B", "\u{e9}", "", "a.txt", "z"];
            let name = letters[((seed >> 33) % 8) as usize];
            let is_dir = (seed >> 20) % 2 == 0;
            items.push(local(name, is_dir, k as u64));
        }
        let mut expected: Vec<(bool, String, u64)> =
            items.iter().map(|i| (i.metadata.is_dir, i.name.clone(), i.metadata.len)).collect();
        expected.sort_by(|a, b| {
            if a.0 == b.0 {
                a.1.cmp(&b.1)
            } else if a.0 {
                std::cmp::Ordering::Less
            } else {
                std::cmp::Ordering::Greater
            }
        });
        let rows = list_local_directory(&items);
        let got: Vec<(bool, String)> =
            rows.iter().map(|r| (r.entry_type == "directory", r.name.clone())).collect();
        let want: Vec<(bool, String)> = expected.iter().map(|e| (e.0, e.1.clone())).collect();
        assert_eq!(got, want);
    }
}

#[test]
fn names_compare_by_their_bytes() {
    for a in ["", "a", "ab", "b", "B", "\u{e9}", "z", "a.txt"] {
        for b in ["", "a", "ab", "b", "B", "\u{e9}", "z", "a.txt"] {
            assert_eq!(name_comes_before(a, b), a < b, "{:?} {:?}", a, b);
        }
    }
}

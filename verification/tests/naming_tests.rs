use mc_manager::compression::CompressionAlgorithm;
use mc_manager::config::{
    config_file_path, eula_text, manager_dir_path, marker_file_path, resolve_backup_dir,
    server_jar_path, start_script, Config,
};
use mc_manager::order::{bytes_le, names_le, sort_names};
use mc_manager::screen::{message_players, start, start_screen, stop};
use mc_manager::timestamp::{backup_file_name, current_timestamp, timestamp_name, Timestamp};

#[test]
fn timestamp_name_is_fixed_width_and_zero_padded() {
    let ts = Timestamp {
        year: 2023,
        month: 7,
        day: 5,
        hour: 9,
        minute: 8,
        second: 1,
    };
    assert_eq!(timestamp_name(&ts), "2023-07-05_09-08-01".to_string());
    let early = Timestamp {
        year: 33,
        month: 12,
        day: 31,
        hour: 23,
        minute: 59,
        second: 59,
    };
    assert_eq!(timestamp_name(&early), "0033-12-31_23-59-59".to_string());
}

#[test]
fn backup_file_names_carry_the_algorithm_extension() {
    let ts = Timestamp {
        year: 2023,
        month: 7,
        day: 5,
        hour: 9,
        minute: 8,
        second: 1,
    };
    assert_eq!(
        backup_file_name(&ts, CompressionAlgorithm::Gzip),
        "2023-07-05_09-08-01.tar.gz".to_string()
    );
    assert_eq!(
        backup_file_name(&ts, CompressionAlgorithm::Lzma),
        "2023-07-05_09-08-01.tar.xz".to_string()
    );
}

#[test]
fn timestamp_fields_are_validated() {
    assert!(Timestamp::new(2023, 7, 5, 9, 8, 1).is_some());
    assert!(Timestamp::new(-1, 7, 5, 9, 8, 1).is_none());
    assert!(Timestamp::new(10000, 7, 5, 9, 8, 1).is_none());
    assert!(Timestamp::new(2023, 0, 5, 9, 8, 1).is_none());
    assert!(Timestamp::new(2023, 13, 5, 9, 8, 1).is_none());
    assert!(Timestamp::new(2023, 7, 0, 9, 8, 1).is_none());
    assert!(Timestamp::new(2023, 7, 5, 24, 8, 1).is_none());
    assert!(Timestamp::new(2023, 7, 5, 9, 60, 1).is_none());
    assert!(Timestamp::new(2023, 7, 5, 9, 8, 60).is_none());
}

#[test]
fn the_clock_yields_a_valid_timestamp() {
    let ts = current_timestamp().unwrap();
    assert!(ts.year <= 9999);
    assert!(1 <= ts.month && ts.month <= 12);
    assert!(1 <= ts.day && ts.day <= 31);
    assert!(ts.hour <= 23 && ts.minute <= 59 && ts.second <= 59);
}

#[test]
fn lexical_name_order_is_chronological_for_timestamp_names() {
    let a = Timestamp {
        year: 2022,
        month: 12,
        day: 31,
        hour: 23,
        minute: 59,
        second: 59,
    };
    let b = Timestamp {
        year: 2023,
        month: 1,
        day: 1,
        hour: 0,
        minute: 0,
        second: 0,
    };
    let earlier = timestamp_name(&a);
    let later = timestamp_name(&b);
    assert!(names_le(&earlier, &later));
    assert!(!names_le(&later, &earlier));
}

#[test]
fn byte_order_is_lexicographic() {
    assert!(bytes_le(b"", b""));
    assert!(bytes_le(b"", b"a"));
    assert!(!bytes_le(b"a", b""));
    assert!(bytes_le(b"abc", b"abd"));
    assert!(!bytes_le(b"abd", b"abc"));
    assert!(bytes_le(b"ab", b"abc"));
    assert!(bytes_le(b"abc", b"abc"));
}

#[test]
fn sorting_orders_names_and_keeps_them_all() {
    let names: Vec<String> = vec!["b".to_string(), "a".to_string(), "c".to_string(), "a".to_string()];
    let sorted = sort_names(&names);
    assert_eq!(
        sorted,
        vec!["a".to_string(), "a".to_string(), "b".to_string(), "c".to_string()]
    );
}

#[test]
fn management_paths_hang_off_the_server_directory() {
    let server = "srv".to_string();
    assert_eq!(manager_dir_path(&server), "srv/.mc-manager".to_string());
    assert_eq!(
        config_file_path(&server),
        "srv/.mc-manager/ManagerConfig.toml".to_string()
    );
    assert_eq!(
        marker_file_path(&server),
        "srv/.mc-manager/current_version.txt".to_string()
    );
    assert_eq!(server_jar_path(&server), "srv/minecraft_server.jar".to_string());
}

#[test]
fn backup_dir_resolution_respects_absolute_paths() {
    let server = "srv".to_string();
    assert_eq!(
        resolve_backup_dir(&server, &"backups".to_string()),
        "srv/backups".to_string()
    );
    assert_eq!(
        resolve_backup_dir(&server, &"/var/backups".to_string()),
        "/var/backups".to_string()
    );
    assert_eq!(resolve_backup_dir(&server, &"".to_string()), "srv/".to_string());
}

#[test]
fn provisioning_texts_are_exact() {
    assert_eq!(
        start_script(&"1G".to_string(), &"2G".to_string()),
        "#!/bin/sh\njava -jar -Xms1G -Xmx2G minecraft_server.jar nogui".to_string()
    );
    assert_eq!(eula_text(), "eula=true".to_string());
    let c = Config::new(
        "srv".to_string(),
        "release".to_string(),
        "mc".to_string(),
        "backups".to_string(),
    );
    assert_eq!(c.server, "srv".to_string());
    assert_eq!(c.version, "release".to_string());
    assert_eq!(c.screen, "mc".to_string());
    assert_eq!(c.backup.dir, "backups".to_string());
}

#[test]
fn screen_commands_are_exact() {
    let server = "srv".to_string();
    let screen = "mc".to_string();

    let cmd = stop(&server, &screen);
    assert_eq!(cmd.program, "screen".to_string());
    assert_eq!(cmd.workdir, "srv".to_string());
    assert_eq!(
        cmd.args,
        vec!["-S", "mc", "-p", "0", "-X", "stuff", "stop\r"]
            .into_iter()
            .map(|s| s.to_string())
            .collect::<Vec<String>>()
    );

    let cmd = start_screen(&server, &screen);
    assert_eq!(
        cmd.args,
        vec!["-dmS", "mc", "./start-server.sh"]
            .into_iter()
            .map(|s| s.to_string())
            .collect::<Vec<String>>()
    );

    let cmds = start(&server, &screen);
    assert_eq!(cmds.len(), 2);
    assert_eq!(cmds[0].args[6], "stop\r".to_string());
    assert_eq!(cmds[1].args[0], "-dmS".to_string());

    let cmd = message_players(&server, &screen, &"backup done".to_string());
    assert_eq!(
        cmd.args[6],
        "tellraw @a [{\"text\":\"backup done\", \"color\":\"gray\",\"italic\":true}]\r".to_string()
    );
}

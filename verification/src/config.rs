use vstd::prelude::*;
use vstd::string::StringExecFns;

verus! {

/// The backup section of the persisted configuration.
pub struct BackupConfig {
    /// Where backups go: absolute, or relative to the server directory.
    pub dir: String,
}

/// The persisted per-server configuration the engine consumes: the server
/// directory, the configured version, the session name and the backup
/// location. Reading and writing the file is the caller's I/O; the values
/// travel through here as plain strings.
pub struct Config {
    pub server: String,
    pub version: String,
    pub screen: String,
    pub backup: BackupConfig,
}

impl Config {
    /// Assemble a configuration from its four values.
    pub fn new(server: String, version: String, screen: String, backup_dir: String) -> (r: Config)
        ensures
            r.server@ == server@,
            r.version@ == version@,
            r.screen@ == screen@,
            r.backup.dir@ == backup_dir@,
    {
        Config { server, version, screen, backup: BackupConfig { dir: backup_dir } }
    }
}

/// The management subdirectory of a server directory.
pub fn manager_dir_path(server: &String) -> (r: String)
    ensures
        r@ == server@ + "/.mc-manager"@,
{
    let mut p = server.clone();
    p.append("/.mc-manager");
    p
}

/// The configuration file inside the management subdirectory.
pub fn config_file_path(server: &String) -> (r: String)
    ensures
        r@ == server@ + "/.mc-manager/ManagerConfig.toml"@,
{
    let mut p = server.clone();
    p.append("/.mc-manager/ManagerConfig.toml");
    p
}

/// The installed-version marker file inside the management subdirectory.
/// Absence of the file is the valid "nothing installed yet" state.
pub fn marker_file_path(server: &String) -> (r: String)
    ensures
        r@ == server@ + "/.mc-manager/current_version.txt"@,
{
    let mut p = server.clone();
    p.append("/.mc-manager/current_version.txt");
    p
}

/// The advisory lock file inside the management subdirectory. A backup
/// or update operation holds it for its whole duration, so that two
/// operations on the same server directory are rejected with the
/// concurrent-operation error instead of silently interleaving.
pub fn lock_file_path(server: &String) -> (r: String)
    ensures
        r@ == server@ + "/.mc-manager/lock"@,
{
    let mut p = server.clone();
    p.append("/.mc-manager/lock");
    p
}

/// The server binary path the update pipeline maintains.
pub fn server_jar_path(server: &String) -> (r: String)
    ensures
        r@ == server@ + "/minecraft_server.jar"@,
{
    let mut p = server.clone();
    p.append("/minecraft_server.jar");
    p
}

/// Where backups for this server go: an absolute backup directory stands
/// alone, a relative one lives under the server directory.
pub fn resolve_backup_dir(server: &String, backup_dir: &String) -> (r: String)
    ensures
        backup_dir@.len() > 0 && backup_dir@[0] == '/' ==> r@ == backup_dir@,
        !(backup_dir@.len() > 0 && backup_dir@[0] == '/') ==> r@ == server@ + "/"@ + backup_dir@,
{
    let absolute = if backup_dir.as_str().unicode_len() == 0 {
        false
    } else {
        backup_dir.as_str().get_char(0) == '/'
    };
    if absolute {
        backup_dir.clone()
    } else {
        let mut p = server.clone();
        p.append("/");
        p.append(backup_dir.as_str());
        p
    }
}

/// The start script the server directory is provisioned with.
pub fn start_script(xms: &String, xmx: &String) -> (r: String)
    ensures
        r@ == "#!/bin/sh\njava -jar -Xms"@ + xms@ + " -Xmx"@ + xmx@
            + " minecraft_server.jar nogui"@,
{
    let mut s = String::from_str("#!/bin/sh\njava -jar -Xms");
    s.append(xms.as_str());
    s.append(" -Xmx");
    s.append(xmx.as_str());
    s.append(" minecraft_server.jar nogui");
    proof {
        assert(s@ =~= "#!/bin/sh\njava -jar -Xms"@ + xms@ + " -Xmx"@ + xmx@
            + " minecraft_server.jar nogui"@);
    }
    s
}

/// The license-acceptance file the server directory is provisioned with.
pub fn eula_text() -> (r: String)
    ensures
        r@ == "eula=true"@,
{
    String::from_str("eula=true")
}

} // verus!

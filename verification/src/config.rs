//! Process configuration: listen address, directories and admin
//! credentials, with defaults overridden by environment variables.

use vstd::prelude::*;

use crate::text::{chars_of, parse_u64, parse_u64_spec, str_eq};

verus! {

/// Process configuration.
#[derive(Debug, Clone)]
pub struct AppConfig {
    pub host: String,
    pub port: u16,
    pub downloads_dir: String,
    pub max_file_size: u64,
    pub request_timeout: u64,
    pub log_level: String,
    pub cors_origins: String,
    pub cookie_file: String,
    pub stats_dir: String,
    pub logs_dir: String,
    pub min_free_disk: u64,
    pub admin_password: Option<String>,
    pub admin_hash_file: String,
    pub admin_secret_file: String,
    pub runtime_config_file: String,
}

impl AppConfig {
    /// The built-in defaults.
    pub open spec fn is_default(&self) -> bool {
        &&& self.host@ == "0.0.0.0"@
        &&& self.port == 5000
        &&& self.downloads_dir@ == "downloads"@
        &&& self.max_file_size == 500 * 1024 * 1024
        &&& self.request_timeout == 30
        &&& self.log_level@ == "info"@
        &&& self.cors_origins@ == "*"@
        &&& self.cookie_file@ == "cookie.txt"@
        &&& self.stats_dir@ == "data"@
        &&& self.logs_dir@ == "logs"@
        &&& self.min_free_disk == 500 * 1024 * 1024
        &&& self.admin_password is None
        &&& self.admin_hash_file@ == "data/admin.hash"@
        &&& self.admin_secret_file@ == "data/admin.secret"@
        &&& self.runtime_config_file@ == "data/runtime_config.json"@
    }
}

impl Default for AppConfig {
    fn default() -> (c: Self)
        ensures
            c.is_default(),
    {
        AppConfig {
            host: String::from_str("0.0.0.0"),
            port: 5000,
            downloads_dir: String::from_str("downloads"),
            max_file_size: 500 * 1024 * 1024,
            request_timeout: 30,
            log_level: String::from_str("info"),
            cors_origins: String::from_str("*"),
            cookie_file: String::from_str("cookie.txt"),
            stats_dir: String::from_str("data"),
            logs_dir: String::from_str("logs"),
            min_free_disk: 500 * 1024 * 1024,
            admin_password: None,
            admin_hash_file: String::from_str("data/admin.hash"),
            admin_secret_file: String::from_str("data/admin.secret"),
            runtime_config_file: String::from_str("data/runtime_config.json"),
        }
    }
}

/// The effect of environment variable `name` set to `value`: each known
/// name overrides its field (`PORT` and `MIN_FREE_DISK` only when the value
/// parses as a number of the field's type, `ADMIN_PASSWORD` as present);
/// other names change nothing.
pub open spec fn env_applied(old: AppConfig, new: AppConfig, name: Seq<char>, value: Seq<char>) -> bool {
    if name == "HOST"@ {
        &&& new.host@ == value
        &&& new.port == old.port
        &&& new.downloads_dir == old.downloads_dir
        &&& new.max_file_size == old.max_file_size
        &&& new.request_timeout == old.request_timeout
        &&& new.log_level == old.log_level
        &&& new.cors_origins == old.cors_origins
        &&& new.cookie_file == old.cookie_file
        &&& new.stats_dir == old.stats_dir
        &&& new.logs_dir == old.logs_dir
        &&& new.min_free_disk == old.min_free_disk
        &&& new.admin_password == old.admin_password
        &&& new.admin_hash_file == old.admin_hash_file
        &&& new.admin_secret_file == old.admin_secret_file
        &&& new.runtime_config_file == old.runtime_config_file
    } else if name == "PORT"@ {
        &&& new.port == (match parse_u64_spec(value) { Some(n) => if n <= 65535 { n as u16 } else { old.port }, None => old.port })
        &&& new.host == old.host
        &&& new.downloads_dir == old.downloads_dir
        &&& new.max_file_size == old.max_file_size
        &&& new.request_timeout == old.request_timeout
        &&& new.log_level == old.log_level
        &&& new.cors_origins == old.cors_origins
        &&& new.cookie_file == old.cookie_file
        &&& new.stats_dir == old.stats_dir
        &&& new.logs_dir == old.logs_dir
        &&& new.min_free_disk == old.min_free_disk
        &&& new.admin_password == old.admin_password
        &&& new.admin_hash_file == old.admin_hash_file
        &&& new.admin_secret_file == old.admin_secret_file
        &&& new.runtime_config_file == old.runtime_config_file
    } else if name == "DOWNLOADS_DIR"@ {
        &&& new.downloads_dir@ == value
        &&& new.host == old.host
        &&& new.port == old.port
        &&& new.max_file_size == old.max_file_size
        &&& new.request_timeout == old.request_timeout
        &&& new.log_level == old.log_level
        &&& new.cors_origins == old.cors_origins
        &&& new.cookie_file == old.cookie_file
        &&& new.stats_dir == old.stats_dir
        &&& new.logs_dir == old.logs_dir
        &&& new.min_free_disk == old.min_free_disk
        &&& new.admin_password == old.admin_password
        &&& new.admin_hash_file == old.admin_hash_file
        &&& new.admin_secret_file == old.admin_secret_file
        &&& new.runtime_config_file == old.runtime_config_file
    } else if name == "LOG_LEVEL"@ {
        &&& new.log_level@ == value
        &&& new.host == old.host
        &&& new.port == old.port
        &&& new.downloads_dir == old.downloads_dir
        &&& new.max_file_size == old.max_file_size
        &&& new.request_timeout == old.request_timeout
        &&& new.cors_origins == old.cors_origins
        &&& new.cookie_file == old.cookie_file
        &&& new.stats_dir == old.stats_dir
        &&& new.logs_dir == old.logs_dir
        &&& new.min_free_disk == old.min_free_disk
        &&& new.admin_password == old.admin_password
        &&& new.admin_hash_file == old.admin_hash_file
        &&& new.admin_secret_file == old.admin_secret_file
        &&& new.runtime_config_file == old.runtime_config_file
    } else if name == "CORS_ORIGINS"@ {
        &&& new.cors_origins@ == value
        &&& new.host == old.host
        &&& new.port == old.port
        &&& new.downloads_dir == old.downloads_dir
        &&& new.max_file_size == old.max_file_size
        &&& new.request_timeout == old.request_timeout
        &&& new.log_level == old.log_level
        &&& new.cookie_file == old.cookie_file
        &&& new.stats_dir == old.stats_dir
        &&& new.logs_dir == old.logs_dir
        &&& new.min_free_disk == old.min_free_disk
        &&& new.admin_password == old.admin_password
        &&& new.admin_hash_file == old.admin_hash_file
        &&& new.admin_secret_file == old.admin_secret_file
        &&& new.runtime_config_file == old.runtime_config_file
    } else if name == "COOKIE_FILE"@ {
        &&& new.cookie_file@ == value
        &&& new.host == old.host
        &&& new.port == old.port
        &&& new.downloads_dir == old.downloads_dir
        &&& new.max_file_size == old.max_file_size
        &&& new.request_timeout == old.request_timeout
        &&& new.log_level == old.log_level
        &&& new.cors_origins == old.cors_origins
        &&& new.stats_dir == old.stats_dir
        &&& new.logs_dir == old.logs_dir
        &&& new.min_free_disk == old.min_free_disk
        &&& new.admin_password == old.admin_password
        &&& new.admin_hash_file == old.admin_hash_file
        &&& new.admin_secret_file == old.admin_secret_file
        &&& new.runtime_config_file == old.runtime_config_file
    } else if name == "STATS_DIR"@ {
        &&& new.stats_dir@ == value
        &&& new.host == old.host
        &&& new.port == old.port
        &&& new.downloads_dir == old.downloads_dir
        &&& new.max_file_size == old.max_file_size
        &&& new.request_timeout == old.request_timeout
        &&& new.log_level == old.log_level
        &&& new.cors_origins == old.cors_origins
        &&& new.cookie_file == old.cookie_file
        &&& new.logs_dir == old.logs_dir
        &&& new.min_free_disk == old.min_free_disk
        &&& new.admin_password == old.admin_password
        &&& new.admin_hash_file == old.admin_hash_file
        &&& new.admin_secret_file == old.admin_secret_file
        &&& new.runtime_config_file == old.runtime_config_file
    } else if name == "LOGS_DIR"@ {
        &&& new.logs_dir@ == value
        &&& new.host == old.host
        &&& new.port == old.port
        &&& new.downloads_dir == old.downloads_dir
        &&& new.max_file_size == old.max_file_size
        &&& new.request_timeout == old.request_timeout
        &&& new.log_level == old.log_level
        &&& new.cors_origins == old.cors_origins
        &&& new.cookie_file == old.cookie_file
        &&& new.stats_dir == old.stats_dir
        &&& new.min_free_disk == old.min_free_disk
        &&& new.admin_password == old.admin_password
        &&& new.admin_hash_file == old.admin_hash_file
        &&& new.admin_secret_file == old.admin_secret_file
        &&& new.runtime_config_file == old.runtime_config_file
    } else if name == "MIN_FREE_DISK"@ {
        &&& new.min_free_disk == (match parse_u64_spec(value) { Some(n) => n, None => old.min_free_disk })
        &&& new.host == old.host
        &&& new.port == old.port
        &&& new.downloads_dir == old.downloads_dir
        &&& new.max_file_size == old.max_file_size
        &&& new.request_timeout == old.request_timeout
        &&& new.log_level == old.log_level
        &&& new.cors_origins == old.cors_origins
        &&& new.cookie_file == old.cookie_file
        &&& new.stats_dir == old.stats_dir
        &&& new.logs_dir == old.logs_dir
        &&& new.admin_password == old.admin_password
        &&& new.admin_hash_file == old.admin_hash_file
        &&& new.admin_secret_file == old.admin_secret_file
        &&& new.runtime_config_file == old.runtime_config_file
    } else if name == "ADMIN_PASSWORD"@ {
        &&& new.admin_password matches Some(p) && p@ == value
        &&& new.host == old.host
        &&& new.port == old.port
        &&& new.downloads_dir == old.downloads_dir
        &&& new.max_file_size == old.max_file_size
        &&& new.request_timeout == old.request_timeout
        &&& new.log_level == old.log_level
        &&& new.cors_origins == old.cors_origins
        &&& new.cookie_file == old.cookie_file
        &&& new.stats_dir == old.stats_dir
        &&& new.logs_dir == old.logs_dir
        &&& new.min_free_disk == old.min_free_disk
        &&& new.admin_hash_file == old.admin_hash_file
        &&& new.admin_secret_file == old.admin_secret_file
        &&& new.runtime_config_file == old.runtime_config_file
    } else if name == "ADMIN_HASH_FILE"@ {
        &&& new.admin_hash_file@ == value
        &&& new.host == old.host
        &&& new.port == old.port
        &&& new.downloads_dir == old.downloads_dir
        &&& new.max_file_size == old.max_file_size
        &&& new.request_timeout == old.request_timeout
        &&& new.log_level == old.log_level
        &&& new.cors_origins == old.cors_origins
        &&& new.cookie_file == old.cookie_file
        &&& new.stats_dir == old.stats_dir
        &&& new.logs_dir == old.logs_dir
        &&& new.min_free_disk == old.min_free_disk
        &&& new.admin_password == old.admin_password
        &&& new.admin_secret_file == old.admin_secret_file
        &&& new.runtime_config_file == old.runtime_config_file
    } else if name == "ADMIN_SECRET_FILE"@ {
        &&& new.admin_secret_file@ == value
        &&& new.host == old.host
        &&& new.port == old.port
        &&& new.downloads_dir == old.downloads_dir
        &&& new.max_file_size == old.max_file_size
        &&& new.request_timeout == old.request_timeout
        &&& new.log_level == old.log_level
        &&& new.cors_origins == old.cors_origins
        &&& new.cookie_file == old.cookie_file
        &&& new.stats_dir == old.stats_dir
        &&& new.logs_dir == old.logs_dir
        &&& new.min_free_disk == old.min_free_disk
        &&& new.admin_password == old.admin_password
        &&& new.admin_hash_file == old.admin_hash_file
        &&& new.runtime_config_file == old.runtime_config_file
    } else if name == "RUNTIME_CONFIG_FILE"@ {
        &&& new.runtime_config_file@ == value
        &&& new.host == old.host
        &&& new.port == old.port
        &&& new.downloads_dir == old.downloads_dir
        &&& new.max_file_size == old.max_file_size
        &&& new.request_timeout == old.request_timeout
        &&& new.log_level == old.log_level
        &&& new.cors_origins == old.cors_origins
        &&& new.cookie_file == old.cookie_file
        &&& new.stats_dir == old.stats_dir
        &&& new.logs_dir == old.logs_dir
        &&& new.min_free_disk == old.min_free_disk
        &&& new.admin_password == old.admin_password
        &&& new.admin_hash_file == old.admin_hash_file
        &&& new.admin_secret_file == old.admin_secret_file
    } else {
        new == old
    }
}

/// Makes the names' texts known to the prover.
proof fn reveal_all_names() {
        reveal_strlit("HOST");
        reveal_strlit("PORT");
        reveal_strlit("DOWNLOADS_DIR");
        reveal_strlit("LOG_LEVEL");
        reveal_strlit("CORS_ORIGINS");
        reveal_strlit("COOKIE_FILE");
        reveal_strlit("STATS_DIR");
        reveal_strlit("LOGS_DIR");
        reveal_strlit("MIN_FREE_DISK");
        reveal_strlit("ADMIN_PASSWORD");
        reveal_strlit("ADMIN_HASH_FILE");
        reveal_strlit("ADMIN_SECRET_FILE");
        reveal_strlit("RUNTIME_CONFIG_FILE");
}

/// The environment variables that override the defaults.
pub fn env_var_names() -> (r: Vec<&'static str>)
    ensures
        r@.len() == 13,
{
    vec!["HOST", "PORT", "DOWNLOADS_DIR", "LOG_LEVEL", "CORS_ORIGINS", "COOKIE_FILE", "STATS_DIR", "LOGS_DIR", "MIN_FREE_DISK", "ADMIN_PASSWORD", "ADMIN_HASH_FILE", "ADMIN_SECRET_FILE", "RUNTIME_CONFIG_FILE"]
}

impl AppConfig {
    /// Applies one environment variable.
    pub fn apply_env(&mut self, name: &str, value: &str)
        ensures
            env_applied(*old(self), *final(self), name@, value@),
    {
        if str_eq(name, "HOST") {
            self.host = String::from_str(value);
            proof {
                reveal_all_names();
            }
            return;
        }
        if str_eq(name, "PORT") {
            let cs = chars_of(value);
            proof {
                assert(cs@.subrange(0, cs.len() as int) =~= value@);
            }
            match parse_u64(&cs, 0, cs.len()) {
            Some(n) => {
                if n <= 65535 {
                    self.port = n as u16;
                }
            },
            None => {},
        }
            proof {
                reveal_all_names();
            }
            return;
        }
        if str_eq(name, "DOWNLOADS_DIR") {
            self.downloads_dir = String::from_str(value);
            proof {
                reveal_all_names();
            }
            return;
        }
        if str_eq(name, "LOG_LEVEL") {
            self.log_level = String::from_str(value);
            proof {
                reveal_all_names();
            }
            return;
        }
        if str_eq(name, "CORS_ORIGINS") {
            self.cors_origins = String::from_str(value);
            proof {
                reveal_all_names();
            }
            return;
        }
        if str_eq(name, "COOKIE_FILE") {
            self.cookie_file = String::from_str(value);
            proof {
                reveal_all_names();
            }
            return;
        }
        if str_eq(name, "STATS_DIR") {
            self.stats_dir = String::from_str(value);
            proof {
                reveal_all_names();
            }
            return;
        }
        if str_eq(name, "LOGS_DIR") {
            self.logs_dir = String::from_str(value);
            proof {
                reveal_all_names();
            }
            return;
        }
        if str_eq(name, "MIN_FREE_DISK") {
            let cs = chars_of(value);
            proof {
                assert(cs@.subrange(0, cs.len() as int) =~= value@);
            }
            match parse_u64(&cs, 0, cs.len()) {
            Some(n) => {
                self.min_free_disk = n;
            },
            None => {},
        }
            proof {
                reveal_all_names();
            }
            return;
        }
        if str_eq(name, "ADMIN_PASSWORD") {
            self.admin_password = Some(String::from_str(value));
            proof {
                reveal_all_names();
            }
            return;
        }
        if str_eq(name, "ADMIN_HASH_FILE") {
            self.admin_hash_file = String::from_str(value);
            proof {
                reveal_all_names();
            }
            return;
        }
        if str_eq(name, "ADMIN_SECRET_FILE") {
            self.admin_secret_file = String::from_str(value);
            proof {
                reveal_all_names();
            }
            return;
        }
        if str_eq(name, "RUNTIME_CONFIG_FILE") {
            self.runtime_config_file = String::from_str(value);
            proof {
                reveal_all_names();
            }
            return;
        }
        proof {
            reveal_all_names();
        }
    }
}

} // verus!

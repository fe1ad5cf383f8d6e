use vstd::prelude::*;

use crate::error::RefstoreError;
use crate::model::{scope_name, GlobalConfig, McpScope};
use crate::text::{decimal, decimal_string, parse_u32, parsed_u32, str_eq};

verus! {

/// The configuration after setting `key` to `value`, when both are
/// accepted: `mcp_scope` takes `read_only` or `read_write`; `git_depth` a
/// number; `default_branch` any text, where empty or `none` unsets it.
pub open spec fn config_after_set(c: GlobalConfig, key: Seq<char>, value: Seq<char>) -> Option<GlobalConfig> {
    if key == "mcp_scope"@ {
        if value == "read_only"@ {
            Some(GlobalConfig { mcp_scope: McpScope::ReadOnly, ..c })
        } else if value == "read_write"@ {
            Some(GlobalConfig { mcp_scope: McpScope::ReadWrite, ..c })
        } else {
            None
        }
    } else if key == "git_depth"@ {
        match parsed_u32(value) {
            Some(d) => Some(GlobalConfig { git_depth: d, ..c }),
            None => None,
        }
    } else if key == "default_branch"@ {
        None
    } else {
        None
    }
}

/// Sets one configuration option from text.
pub fn set_config_value(config: &mut GlobalConfig, key: &str, value: &str) -> (r: Result<(), RefstoreError>)
    ensures
        if key@ == "mcp_scope"@ || key@ == "git_depth"@ {
            match r {
                Ok(()) => config_after_set(*old(config), key@, value@) == Some(*final(config)),
                Err(e) => config_after_set(*old(config), key@, value@) is None && (e matches RefstoreError::InvalidConfigValue { key: k, value: v } && k@ == key@ && v@ == value@),
            }
        } else if key@ == "default_branch"@ {
            &&& r is Ok
            &&& final(config).mcp_scope == old(config).mcp_scope
            &&& final(config).git_depth == old(config).git_depth
            &&& final(config).registries == old(config).registries
            &&& final(config).data_dir == old(config).data_dir
            &&& match final(config).default_branch {
                None => value@ == ""@ || value@ == "none"@,
                Some(b) => b@ == value@ && value@ != ""@ && value@ != "none"@,
            }
        } else {
            r matches Err(RefstoreError::UnknownConfigKey { key: k }) && k@ == key@
        },
        r is Err ==> *final(config) == *old(config),
{
    proof {
        reveal_strlit("mcp_scope");
        reveal_strlit("git_depth");
        reveal_strlit("default_branch");
        reveal_strlit("read_only");
        reveal_strlit("read_write");
        reveal_strlit("none");
        reveal_strlit("");
    }
    if str_eq(key, "mcp_scope") {
        if str_eq(value, "read_only") {
            config.mcp_scope = McpScope::ReadOnly;
            Ok(())
        } else if str_eq(value, "read_write") {
            config.mcp_scope = McpScope::ReadWrite;
            Ok(())
        } else {
            Err(RefstoreError::InvalidConfigValue { key: String::from_str(key), value: String::from_str(value) })
        }
    } else if str_eq(key, "git_depth") {
        match parse_u32(value) {
            Some(d) => {
                config.git_depth = d;
                Ok(())
            },
            None => Err(RefstoreError::InvalidConfigValue { key: String::from_str(key), value: String::from_str(value) }),
        }
    } else if str_eq(key, "default_branch") {
        if str_eq(value, "") || str_eq(value, "none") {
            config.default_branch = None;
        } else {
            config.default_branch = Some(String::from_str(value));
        }
        Ok(())
    } else {
        Err(RefstoreError::UnknownConfigKey { key: String::from_str(key) })
    }
}

/// One configuration option as text: the scope's name, the depth in
/// decimal, the default branch or `(not set)`.
pub fn config_value(config: &GlobalConfig, key: &str) -> (r: Result<String, RefstoreError>)
    ensures
        if key@ == "mcp_scope"@ {
            r matches Ok(t) && t@ == scope_name(config.mcp_scope)
        } else if key@ == "git_depth"@ {
            r matches Ok(t) && t@ == decimal(config.git_depth as nat)
        } else if key@ == "default_branch"@ {
            r matches Ok(t) && t@ == match config.default_branch {
                Some(b) => b@,
                None => "(not set)"@,
            }
        } else {
            r matches Err(RefstoreError::UnknownConfigKey { key: k }) && k@ == key@
        },
{
    proof {
        reveal_strlit("mcp_scope");
        reveal_strlit("git_depth");
        reveal_strlit("default_branch");
        reveal_strlit("read_only");
        reveal_strlit("read_write");
        reveal_strlit("none");
        reveal_strlit("");
    }
    if str_eq(key, "mcp_scope") {
        Ok(String::from_str(config.mcp_scope.as_str()))
    } else if str_eq(key, "git_depth") {
        Ok(decimal_string(config.git_depth as u64))
    } else if str_eq(key, "default_branch") {
        match &config.default_branch {
            Some(b) => Ok(b.clone()),
            None => Ok(String::from_str("(not set)")),
        }
    } else {
        Err(RefstoreError::UnknownConfigKey { key: String::from_str(key) })
    }
}

} // verus!

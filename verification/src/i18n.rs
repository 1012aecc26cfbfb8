//! The messages of the program, in English and in Chinese.
use crate::config::opt_text;
use crate::text::{
    chars_of, contains_chars, contains_text, lines_text, matches_at, padded, push_line,
    push_padded, starts_with_text,
};
use vstd::prelude::*;
use vstd::string::*;

verus! {

/// The language in which messages are given.
pub struct I18n {
    pub is_chinese: bool,
}

/// What the environment says about the language: the values of
/// `LAZYSSH_LANG`, `LANG`, `LC_ALL` and `LC_MESSAGES`, where they are set.
pub struct LangEnv {
    pub lazyssh_lang: Option<String>,
    pub lang: Option<String>,
    pub lc_all: Option<String>,
    pub lc_messages: Option<String>,
}

/// The text of `s` in lower case, as Unicode maps it.
pub uninterp spec fn lowercase_text(s: Seq<char>) -> Seq<char>;

/// The lower-case form of a string. This is `str::to_lowercase` of the
/// standard library; its result is named, not described.
#[verifier::external_body]
fn lowercase(s: &str) -> (r: String)
    ensures
        r@ == lowercase_text(s@),
{
    s.to_lowercase()
}

/// The language code that counts: the one given on the command line, else
/// the first that the environment holds, in the order `LAZYSSH_LANG`, `LANG`,
/// `LC_ALL`, `LC_MESSAGES`, else `en`.
pub open spec fn chosen_lang(
    lang_override: Option<Seq<char>>,
    lazyssh_lang: Option<Seq<char>>,
    lang: Option<Seq<char>>,
    lc_all: Option<Seq<char>>,
    lc_messages: Option<Seq<char>>,
) -> Seq<char> {
    if let Some(l) = lang_override {
        l
    } else if let Some(l) = lazyssh_lang {
        l
    } else if let Some(l) = lang {
        l
    } else if let Some(l) = lc_all {
        l
    } else if let Some(l) = lc_messages {
        l
    } else {
        "en"@
    }
}

/// Whether a language code in lower case asks for Chinese: it begins with
/// `zh`, or holds `cn`, `tw`, `hans` or `hant`.
pub open spec fn names_chinese(lower: Seq<char>) -> bool {
    ||| starts_with_text(lower, "zh"@)
    ||| contains_text(lower, "cn"@)
    ||| contains_text(lower, "tw"@)
    ||| contains_text(lower, "hans"@)
    ||| contains_text(lower, "hant"@)
}

/// The message in the language chosen.
pub open spec fn in_language(is_chinese: bool, chinese: Seq<char>, english: Seq<char>) -> Seq<
    char,
> {
    if is_chinese {
        chinese
    } else {
        english
    }
}

/// The complaint about an argument that is not known.
pub open spec fn unknown_arg_text(is_chinese: bool, arg: Seq<char>) -> Seq<char> {
    in_language(is_chinese, "未知参数: "@, "Unknown argument: "@) + arg
}

/// The hint at `--help`.
pub open spec fn use_help_text(is_chinese: bool) -> Seq<char> {
    in_language(is_chinese, "使用 --help 查看帮助信息"@, "Use --help for help information"@)
}

/// The first line of the help text; it is the same in both languages.
pub open spec fn help_title_text(is_chinese: bool) -> Seq<char> {
    "LazySSH - A cross-platform SSH management tool with TUI interface"@
}

/// The usage line of the help text.
pub open spec fn help_usage_text(is_chinese: bool) -> Seq<char> {
    in_language(is_chinese, "用法: lazyssh [选项]"@, "Usage: lazyssh [OPTIONS]"@)
}

/// The heading of the options in the help text.
pub open spec fn help_options_text(is_chinese: bool) -> Seq<char> {
    in_language(is_chinese, "选项:"@, "Options:"@)
}

/// What `--version` does.
pub open spec fn help_version_text(is_chinese: bool) -> Seq<char> {
    in_language(is_chinese, "显示版本信息"@, "Show version information"@)
}

/// What `--help` does.
pub open spec fn help_help_text(is_chinese: bool) -> Seq<char> {
    in_language(is_chinese, "显示帮助信息"@, "Show help information"@)
}

/// What `--lang` does.
pub open spec fn help_lang_text(is_chinese: bool) -> Seq<char> {
    in_language(is_chinese, "指定语言 (zh/en)"@, "Specify language (zh/en)"@)
}

/// What happens without options.
pub open spec fn help_no_args_text(is_chinese: bool) -> Seq<char> {
    in_language(is_chinese, "如果没有指定选项，将启动图形化 TUI 界面。"@, "If no options are specified, the graphical TUI interface will be launched."@)
}

/// Where the language comes from.
pub open spec fn help_lang_priority_text(is_chinese: bool) -> Seq<char> {
    in_language(is_chinese, "语言设置优先级：命令行参数 > 环境变量 LAZYSSH_LANG > 系统语言"@, "Language priority: command line argument > LAZYSSH_LANG env > system language"@)
}

/// The notice at the start that `sshpass` is missing.
pub open spec fn sshpass_not_found_text(is_chinese: bool) -> Seq<char> {
    in_language(is_chinese, "sshpass 未找到。请手动安装 sshpass（macOS 或 Linux）。"@, "sshpass not found. Please install it manually for macOS or Linux."@)
}

/// The complaint that a password cannot be handed over without `sshpass`.
pub open spec fn sshpass_cannot_login_text(is_chinese: bool) -> Seq<char> {
    in_language(is_chinese, "sshpass 未找到。无法自动登录。"@, "sshpass not found. Cannot auto-login."@)
}

/// The line that names the target of a connection that failed.
pub open spec fn ssh_connection_failed_text(is_chinese: bool, userhost: Seq<char>) -> Seq<char> {
    in_language(is_chinese, "\n❌ SSH 连接失败: "@, "\n❌ SSH connection failed: "@) + userhost
}

/// The words before the exit status.
pub open spec fn exit_code_text(is_chinese: bool) -> Seq<char> {
    in_language(is_chinese, "   退出代码:"@, "   Exit code:"@)
}

/// The likely reasons of a failure.
pub open spec fn possible_reasons_text(is_chinese: bool) -> Seq<char> {
    in_language(is_chinese, "   可能的原因：网络问题、主机不可达、认证失败等"@, "   Possible reasons: network issues, host unreachable, authentication failure, etc."@)
}

/// The request to press Enter.
pub open spec fn press_enter_to_return_text(is_chinese: bool) -> Seq<char> {
    in_language(is_chinese, "\n按回车键返回..."@, "\nPress Enter to return..."@)
}

/// The complaint that waiting for `ssh` failed, with the reason.
pub open spec fn wait_ssh_process_error_text(is_chinese: bool, e: Seq<char>) -> Seq<char> {
    in_language(is_chinese, "\n❌ 等待 SSH 进程时出错: "@, "\n❌ Error waiting for SSH process: "@) + e
}

/// The complaint that `ssh` could not be started, with the reason.
pub open spec fn execute_ssh_error_text(is_chinese: bool, e: Seq<char>) -> Seq<char> {
    in_language(is_chinese, "\n❌ 无法执行 SSH 命令: "@, "\n❌ Failed to execute SSH command: "@) + e
}

/// The message that a profile lacks a user or a host.
pub open spec fn invalid_host_format_text(is_chinese: bool) -> Seq<char> {
    in_language(is_chinese, "错误: 主机格式不正确"@, "Error: Invalid host format"@)
}

/// The line of the confirmation box that names the keys.
pub open spec fn press_y_to_confirm_text(is_chinese: bool) -> Seq<char> {
    in_language(is_chinese, "│  按 'y' 确认删除，按 'n' 取消           │"@, "│  Press 'y' to confirm, 'n' to cancel     │"@)
}

/// The key legend while the question before a deletion is open.
pub open spec fn confirm_delete_text(is_chinese: bool) -> Seq<char> {
    in_language(is_chinese, "  y: 确认删除  │  n/Esc: 取消"@, "  y: Confirm Delete  │  n/Esc: Cancel"@)
}

/// The message that the clipboard holds no connection command.
pub open spec fn clipboard_parse_error_text(is_chinese: bool) -> Seq<char> {
    in_language(is_chinese, "错误: 无法解析剪贴板内容为有效的 SSH 命令格式"@, "Error: Failed to parse clipboard content as valid SSH command format"@)
}

/// The line of the confirmation box that names the profile, the name filled
/// up to thirty characters.
pub open spec fn confirm_delete_host_text(is_chinese: bool, host_name: Seq<char>) -> Seq<char> {
    in_language(is_chinese, "│  确认删除主机: "@, "│  Confirm delete host: "@) + padded(host_name, 30)
        + " │"@
}

/// The help text, line by line.
pub open spec fn help_page(is_chinese: bool) -> Seq<Seq<char>> {
    seq![
        help_title_text(is_chinese),
        Seq::empty(),
        help_usage_text(is_chinese),
        Seq::empty(),
        help_options_text(is_chinese),
        "  -V, --version    "@ + help_version_text(is_chinese),
        "  -h, --help       "@ + help_help_text(is_chinese),
        "  -l, --lang CODE  "@ + help_lang_text(is_chinese),
        Seq::empty(),
        help_no_args_text(is_chinese),
        Seq::empty(),
        help_lang_priority_text(is_chinese),
    ]
}

/// The characters of an optional string slice.
pub open spec fn opt_str_text(s: Option<&str>) -> Option<Seq<char>> {
    match s {
        Some(t) => Some(t@),
        None => None,
    }
}

impl LangEnv {
    /// An environment that says nothing about the language.
    pub fn empty() -> (r: Self)
        ensures
            r.lazyssh_lang is None,
            r.lang is None,
            r.lc_all is None,
            r.lc_messages is None,
    {
        LangEnv { lazyssh_lang: None, lang: None, lc_all: None, lc_messages: None }
    }
}

impl I18n {
    /// The language that the environment asks for.
    pub fn new(env: &LangEnv) -> (r: Self)
        ensures
            r.is_chinese == names_chinese(
                lowercase_text(
                    chosen_lang(
                        None,
                        opt_text(env.lazyssh_lang),
                        opt_text(env.lang),
                        opt_text(env.lc_all),
                        opt_text(env.lc_messages),
                    ),
                ),
            ),
    {
        Self::with_lang(None, env)
    }

    /// The language that the command line asks for, or else the
    /// environment.
    pub fn with_lang(lang_override: Option<&str>, env: &LangEnv) -> (r: Self)
        ensures
            r.is_chinese == names_chinese(
                lowercase_text(
                    chosen_lang(
                        opt_str_text(lang_override),
                        opt_text(env.lazyssh_lang),
                        opt_text(env.lang),
                        opt_text(env.lc_all),
                        opt_text(env.lc_messages),
                    ),
                ),
            ),
    {
        let lower = if let Some(l) = lang_override {
            lowercase(l)
        } else if let Some(l) = &env.lazyssh_lang {
            lowercase(l.as_str())
        } else if let Some(l) = &env.lang {
            lowercase(l.as_str())
        } else if let Some(l) = &env.lc_all {
            lowercase(l.as_str())
        } else if let Some(l) = &env.lc_messages {
            lowercase(l.as_str())
        } else {
            lowercase("en")
        };
        Self::for_lowercase(lower.as_str())
    }

    /// The language that a language code in lower case asks for.
    pub fn for_lowercase(lower: &str) -> (r: Self)
        ensures
            r.is_chinese == names_chinese(lower@),
    {
        let code = chars_of(lower);
        let zh = chars_of("zh");
        let cn = chars_of("cn");
        let tw = chars_of("tw");
        let hans = chars_of("hans");
        let hant = chars_of("hant");
        let is_chinese = matches_at(&code, &zh, 0) || contains_chars(&code, &cn) || contains_chars(
            &code,
            &tw,
        ) || contains_chars(&code, &hans) || contains_chars(&code, &hant);
        I18n { is_chinese }
    }

    pub fn unknown_arg(&self, arg: &str) -> (r: String)
        ensures
            r@ == unknown_arg_text(self.is_chinese, arg@),
    {
        let mut out = if self.is_chinese {
            "未知参数: ".to_owned()
        } else {
            "Unknown argument: ".to_owned()
        };
        out.append(arg);
        out
    }

    pub fn use_help(&self) -> (r: &str)
        ensures
            r@ == use_help_text(self.is_chinese),
    {
        if self.is_chinese {
            "使用 --help 查看帮助信息"
        } else {
            "Use --help for help information"
        }
    }

    pub fn help_title(&self) -> (r: &str)
        ensures
            r@ == help_title_text(self.is_chinese),
    {
        "LazySSH - A cross-platform SSH management tool with TUI interface"
    }

    pub fn help_usage(&self) -> (r: &str)
        ensures
            r@ == help_usage_text(self.is_chinese),
    {
        if self.is_chinese {
            "用法: lazyssh [选项]"
        } else {
            "Usage: lazyssh [OPTIONS]"
        }
    }

    pub fn help_options(&self) -> (r: &str)
        ensures
            r@ == help_options_text(self.is_chinese),
    {
        if self.is_chinese {
            "选项:"
        } else {
            "Options:"
        }
    }

    pub fn help_version(&self) -> (r: &str)
        ensures
            r@ == help_version_text(self.is_chinese),
    {
        if self.is_chinese {
            "显示版本信息"
        } else {
            "Show version information"
        }
    }

    pub fn help_help(&self) -> (r: &str)
        ensures
            r@ == help_help_text(self.is_chinese),
    {
        if self.is_chinese {
            "显示帮助信息"
        } else {
            "Show help information"
        }
    }

    pub fn help_lang(&self) -> (r: &str)
        ensures
            r@ == help_lang_text(self.is_chinese),
    {
        if self.is_chinese {
            "指定语言 (zh/en)"
        } else {
            "Specify language (zh/en)"
        }
    }

    pub fn help_no_args(&self) -> (r: &str)
        ensures
            r@ == help_no_args_text(self.is_chinese),
    {
        if self.is_chinese {
            "如果没有指定选项，将启动图形化 TUI 界面。"
        } else {
            "If no options are specified, the graphical TUI interface will be launched."
        }
    }

    pub fn help_lang_priority(&self) -> (r: &str)
        ensures
            r@ == help_lang_priority_text(self.is_chinese),
    {
        if self.is_chinese {
            "语言设置优先级：命令行参数 > 环境变量 LAZYSSH_LANG > 系统语言"
        } else {
            "Language priority: command line argument > LAZYSSH_LANG env > system language"
        }
    }

    pub fn sshpass_not_found(&self) -> (r: &str)
        ensures
            r@ == sshpass_not_found_text(self.is_chinese),
    {
        if self.is_chinese {
            "sshpass 未找到。请手动安装 sshpass（macOS 或 Linux）。"
        } else {
            "sshpass not found. Please install it manually for macOS or Linux."
        }
    }

    pub fn sshpass_cannot_login(&self) -> (r: &str)
        ensures
            r@ == sshpass_cannot_login_text(self.is_chinese),
    {
        if self.is_chinese {
            "sshpass 未找到。无法自动登录。"
        } else {
            "sshpass not found. Cannot auto-login."
        }
    }

    pub fn ssh_connection_failed(&self, userhost: &str) -> (r: String)
        ensures
            r@ == ssh_connection_failed_text(self.is_chinese, userhost@),
    {
        let mut out = if self.is_chinese {
            "\n❌ SSH 连接失败: ".to_owned()
        } else {
            "\n❌ SSH connection failed: ".to_owned()
        };
        out.append(userhost);
        out
    }

    pub fn exit_code(&self) -> (r: &str)
        ensures
            r@ == exit_code_text(self.is_chinese),
    {
        if self.is_chinese {
            "   退出代码:"
        } else {
            "   Exit code:"
        }
    }

    pub fn possible_reasons(&self) -> (r: &str)
        ensures
            r@ == possible_reasons_text(self.is_chinese),
    {
        if self.is_chinese {
            "   可能的原因：网络问题、主机不可达、认证失败等"
        } else {
            "   Possible reasons: network issues, host unreachable, authentication failure, etc."
        }
    }

    pub fn press_enter_to_return(&self) -> (r: &str)
        ensures
            r@ == press_enter_to_return_text(self.is_chinese),
    {
        if self.is_chinese {
            "\n按回车键返回..."
        } else {
            "\nPress Enter to return..."
        }
    }

    pub fn wait_ssh_process_error(&self, e: &str) -> (r: String)
        ensures
            r@ == wait_ssh_process_error_text(self.is_chinese, e@),
    {
        let mut out = if self.is_chinese {
            "\n❌ 等待 SSH 进程时出错: ".to_owned()
        } else {
            "\n❌ Error waiting for SSH process: ".to_owned()
        };
        out.append(e);
        out
    }

    pub fn execute_ssh_error(&self, e: &str) -> (r: String)
        ensures
            r@ == execute_ssh_error_text(self.is_chinese, e@),
    {
        let mut out = if self.is_chinese {
            "\n❌ 无法执行 SSH 命令: ".to_owned()
        } else {
            "\n❌ Failed to execute SSH command: ".to_owned()
        };
        out.append(e);
        out
    }

    pub fn invalid_host_format(&self) -> (r: &str)
        ensures
            r@ == invalid_host_format_text(self.is_chinese),
    {
        if self.is_chinese {
            "错误: 主机格式不正确"
        } else {
            "Error: Invalid host format"
        }
    }

    pub fn press_y_to_confirm(&self) -> (r: &str)
        ensures
            r@ == press_y_to_confirm_text(self.is_chinese),
    {
        if self.is_chinese {
            "│  按 'y' 确认删除，按 'n' 取消           │"
        } else {
            "│  Press 'y' to confirm, 'n' to cancel     │"
        }
    }

    pub fn confirm_delete(&self) -> (r: &str)
        ensures
            r@ == confirm_delete_text(self.is_chinese),
    {
        if self.is_chinese {
            "  y: 确认删除  │  n/Esc: 取消"
        } else {
            "  y: Confirm Delete  │  n/Esc: Cancel"
        }
    }

    pub fn clipboard_parse_error(&self) -> (r: &str)
        ensures
            r@ == clipboard_parse_error_text(self.is_chinese),
    {
        if self.is_chinese {
            "错误: 无法解析剪贴板内容为有效的 SSH 命令格式"
        } else {
            "Error: Failed to parse clipboard content as valid SSH command format"
        }
    }

    pub fn confirm_delete_host(&self, host_name: &str) -> (r: String)
        ensures
            r@ == confirm_delete_host_text(self.is_chinese, host_name@),
    {
        let mut out = if self.is_chinese {
            "│  确认删除主机: ".to_owned()
        } else {
            "│  Confirm delete host: ".to_owned()
        };
        push_padded(&mut out, host_name, 30);
        out.append(" │");
        out
    }

    /// The help text, line by line.
    pub fn help_lines(&self) -> (r: Vec<String>)
        ensures
            lines_text(r@) == help_page(self.is_chinese),
    {
        let mut version = "  -V, --version    ".to_owned();
        version.append(self.help_version());
        let mut help = "  -h, --help       ".to_owned();
        help.append(self.help_help());
        let mut lang = "  -l, --lang CODE  ".to_owned();
        lang.append(self.help_lang());
        let mut out: Vec<String> = Vec::new();
        push_line(&mut out, self.help_title().to_owned());
        push_line(&mut out, String::new());
        push_line(&mut out, self.help_usage().to_owned());
        push_line(&mut out, String::new());
        push_line(&mut out, self.help_options().to_owned());
        push_line(&mut out, version);
        push_line(&mut out, help);
        push_line(&mut out, lang);
        push_line(&mut out, String::new());
        push_line(&mut out, self.help_no_args().to_owned());
        push_line(&mut out, String::new());
        push_line(&mut out, self.help_lang_priority().to_owned());
        proof {
            assert(lines_text(out@) =~= help_page(self.is_chinese));
        }
        out
    }
}

} // verus!

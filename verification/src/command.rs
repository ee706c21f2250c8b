//! The `cast wallet` command line that each form asks for, and what a run of `cast` reports.

use vstd::prelude::*;
use vstd::utf8::{decode_utf8, valid_utf8};

use std::borrow::Cow;

use crate::error::AppError;
use crate::text::{
    concat, concat3, contains_char, join, parse_usize, push_char, spec_decimal_string, spec_join,
    spec_parse_usize, spec_trim, str_eq, string_texts, trim, usize_to_string,
};
use crate::types::{ActionForm, ActionKind, App, AppView, CommandResult, FormView};

verus! {

/// The keystore directory that a user typed, with a leading `~` read as the home directory
/// `home` (when it is known) and surrounding whitespace removed.
pub open spec fn spec_normalize_path(raw: Seq<char>, home: Option<Seq<char>>) -> Seq<char> {
    let t = spec_trim(raw);
    if t.len() == 0 {
        Seq::empty()
    } else if t == "~"@ {
        match home {
            Some(h) => h,
            None => "~"@,
        }
    } else if t.len() >= 2 && t[0] == '~' && t[1] == '/' && home is Some {
        home->0 + "/"@ + t.skip(2)
    } else {
        t
    }
}

/// Foundry's keystore directory under the home directory `home`, or under `~` when the home
/// directory is not known.
pub open spec fn spec_default_keystore_dir(home: Option<Seq<char>>) -> Seq<char> {
    match home {
        Some(h) => h + "/.foundry/keystores"@,
        None => "~/.foundry/keystores"@,
    }
}

/// The arguments to `cast` that `form` asks for, with `home` as the home directory, or the
/// message that says which input is missing or invalid.
pub open spec fn spec_build_command(form: FormView, home: Option<Seq<char>>) -> Result<
    Seq<Seq<char>>,
    Seq<char>,
> {
    match form.kind {
        ActionKind::CheckAddress => {
            let private_key = form.value("private_key"@);
            if private_key.len() == 0 {
                Err("Private key is required."@)
            } else {
                Ok(seq!["wallet"@, "address"@, "--private-key"@, private_key])
            }
        },
        ActionKind::CreateWallet => {
            let account_name = form.value("account_name"@);
            let keystore_dir = spec_normalize_path(form.value("keystore_dir"@), home);
            let password = form.value("password"@);
            let number = if form.value("number"@).len() == 0 {
                "1"@
            } else {
                form.value("number"@)
            };
            match spec_parse_usize(number) {
                None => Err("Number must be a positive integer."@),
                Some(n) => if n == 0 {
                    Err("Number must be at least 1."@)
                } else {
                    let base = if n != 1 {
                        seq!["wallet"@, "new"@, "--number"@, spec_decimal_string(n)]
                    } else {
                        seq!["wallet"@, "new"@]
                    };
                    if account_name.len() > 0 || keystore_dir.len() > 0 || password.len() > 0 {
                        if password.len() == 0 {
                            Err("Password is required when saving a new wallet to a keystore."@)
                        } else {
                            let target = if keystore_dir.len() == 0 {
                                spec_default_keystore_dir(home)
                            } else {
                                keystore_dir
                            };
                            let named = if account_name.len() > 0 {
                                base.push(target).push(account_name)
                            } else {
                                base.push(target)
                            };
                            Ok(named.push("--unsafe-password"@).push(password))
                        }
                    } else {
                        Ok(base)
                    }
                },
            }
        },
        ActionKind::ImportWallet => {
            let account_name = form.value("account_name"@);
            let private_key = form.value("private_key"@);
            let password = form.value("password"@);
            let keystore_dir = spec_normalize_path(form.value("keystore_dir"@), home);
            if account_name.len() == 0 {
                Err("Account name is required."@)
            } else if private_key.len() == 0 {
                Err("Private key is required."@)
            } else if password.len() == 0 {
                Err("Password is required."@)
            } else {
                let base = if keystore_dir.len() > 0 {
                    seq!["wallet"@, "import"@, "--keystore-dir"@, keystore_dir]
                } else {
                    seq!["wallet"@, "import"@]
                };
                Ok(
                    base + seq![
                        account_name,
                        "--private-key"@,
                        private_key,
                        "--unsafe-password"@,
                        password,
                    ],
                )
            }
        },
    }
}

/// `home` as an optional text.
pub open spec fn opt_text(home: Option<&str>) -> Option<Seq<char>> {
    match home {
        Some(h) => Some(h@),
        None => None,
    }
}

/// Normalizes a keystore directory typed by the user: trims it, and reads a leading `~`
/// as the home directory `home` when that is known.
pub fn normalize_path(raw: &str, home: Option<&str>) -> (r: String)
    ensures
        r@ == spec_normalize_path(raw@, opt_text(home)),
{
    let trimmed = trim(raw);
    let n = trimmed.unicode_len();
    if n == 0 {
        return String::new();
    }
    if str_eq(trimmed, "~") {
        return match home {
            Some(h) => String::from_str(h),
            None => String::from_str("~"),
        };
    }
    if n >= 2 && trimmed.get_char(0) == '~' && trimmed.get_char(1) == '/' {
        if let Some(h) = home {
            let rest = trimmed.substring_char(2, n);
            return concat3(h, "/", rest);
        }
    }
    String::from_str(trimmed)
}

/// Foundry's default keystore directory, under the home directory `home` when it is known.
pub fn default_foundry_keystore_dir(home: Option<&str>) -> (r: String)
    ensures
        r@ == spec_default_keystore_dir(opt_text(home)),
{
    match home {
        Some(h) => concat(h, "/.foundry/keystores"),
        None => String::from_str("~/.foundry/keystores"),
    }
}

/// The trimmed value of the field `key` of `form`, or `message` as an error when it is empty.
pub fn required_value(form: &ActionForm, key: &str, message: &str) -> (r: Result<String, AppError>)
    ensures
        form@.value(key@).len() > 0 ==> (r matches Ok(v) && v@ == form@.value(key@)),
        form@.value(key@).len() == 0 ==> (r matches Err(e) && e is Message && e.spec_text()
            == message@),
{
    let value = form.value(key);
    if value.unicode_len() == 0 {
        return Err(AppError::message(String::from_str(message)));
    }
    Ok(String::from_str(value))
}

fn string_of(s: &str) -> (r: String)
    ensures
        r@ == s@,
{
    String::from_str(s)
}

/// The arguments to hand to `cast` for `form`, with `home` as the home directory, or the
/// error that says which input is missing or invalid.
pub fn build_command(form: &ActionForm, home: Option<&str>) -> (r: Result<Vec<String>, AppError>)
    ensures
        match spec_build_command(form@, opt_text(home)) {
            Ok(args) => (r matches Ok(v) && string_texts(v@) == args),
            Err(m) => (r matches Err(e) && e is Message && e.spec_text() == m),
        },
{
    match form.kind {
        ActionKind::CheckAddress => {
            let private_key = match required_value(form, "private_key", "Private key is required.") {
                Ok(v) => v,
                Err(e) => return Err(e),
            };
            let args = vec![string_of("wallet"), string_of("address"), string_of("--private-key"), private_key];
            assert(string_texts(args@) =~= seq!["wallet"@, "address"@, "--private-key"@, form@.value("private_key"@)]);
            Ok(args)
        },
        ActionKind::CreateWallet => {
            let account_name = form.value("account_name");
            let keystore_dir = normalize_path(form.value("keystore_dir"), home);
            let password = form.value("password");
            let number = if form.value("number").unicode_len() == 0 {
                "1"
            } else {
                form.value("number")
            };
            let parsed_number = match parse_usize(number) {
                Some(n) => n,
                None => {
                    return Err(AppError::message(string_of("Number must be a positive integer.")));
                },
            };
            if parsed_number == 0 {
                return Err(AppError::message(string_of("Number must be at least 1.")));
            }
            let mut args = vec![string_of("wallet"), string_of("new")];
            if parsed_number != 1 {
                args.push(string_of("--number"));
                args.push(usize_to_string(parsed_number));
            }
            let should_save = account_name.unicode_len() != 0 || keystore_dir.as_str().unicode_len() != 0
                || password.unicode_len() != 0;
            if should_save {
                if password.unicode_len() == 0 {
                    return Err(
                        AppError::message(
                            string_of("Password is required when saving a new wallet to a keystore."),
                        ),
                    );
                }
                let target_dir = if keystore_dir.as_str().unicode_len() == 0 {
                    default_foundry_keystore_dir(home)
                } else {
                    keystore_dir
                };
                args.push(target_dir);
                if account_name.unicode_len() != 0 {
                    args.push(string_of(account_name));
                }
                args.push(string_of("--unsafe-password"));
                args.push(string_of(password));
            }
            assert(string_texts(args@) =~= match spec_build_command(form@, opt_text(home)) {
                Ok(a) => a,
                Err(_) => string_texts(args@),
            });
            Ok(args)
        },
        ActionKind::ImportWallet => {
            let account_name = match required_value(form, "account_name", "Account name is required.") {
                Ok(v) => v,
                Err(e) => return Err(e),
            };
            let private_key = match required_value(form, "private_key", "Private key is required.") {
                Ok(v) => v,
                Err(e) => return Err(e),
            };
            let password = match required_value(form, "password", "Password is required.") {
                Ok(v) => v,
                Err(e) => return Err(e),
            };
            let keystore_dir = normalize_path(form.value("keystore_dir"), home);
            let mut args = vec![string_of("wallet"), string_of("import")];
            if keystore_dir.as_str().unicode_len() != 0 {
                args.push(string_of("--keystore-dir"));
                args.push(keystore_dir);
            }
            args.push(account_name);
            args.push(string_of("--private-key"));
            args.push(private_key);
            args.push(string_of("--unsafe-password"));
            args.push(password);
            assert(string_texts(args@) =~= match spec_build_command(form@, opt_text(home)) {
                Ok(a) => a,
                Err(_) => string_texts(args@),
            });
            Ok(args)
        },
    }
}


/// Every command that a form yields is a `cast wallet` command: `wallet`, then `address`,
/// `new` or `import` as the form's kind says.
pub proof fn lemma_command_is_wallet_subcommand(form: FormView, home: Option<Seq<char>>)
    requires
        spec_build_command(form, home) is Ok,
    ensures
        ({
            let args = spec_build_command(form, home)->Ok_0;
            &&& args.len() >= 2
            &&& args[0] == "wallet"@
            &&& args[1] == match form.kind {
                ActionKind::CheckAddress => "address"@,
                ActionKind::CreateWallet => "new"@,
                ActionKind::ImportWallet => "import"@,
            }
        }),
{
}

/// The number of wallets that the create form asks for: its `number` field, or 1 when
/// that is empty.
pub open spec fn spec_requested_number(form: FormView) -> Option<nat> {
    spec_parse_usize(
        if form.value("number"@).len() == 0 {
            "1"@
        } else {
            form.value("number"@)
        },
    )
}

/// A new wallet with a password is always saved to a keystore. For the create form with a
/// valid number of wallets and a non-empty password, the command is `wallet new`, then the
/// keystore directory (the one typed in, or Foundry's default one when none is), then the
/// account name when there is one, and it ends with `--unsafe-password` and the password.
pub proof fn lemma_password_saves_new_wallet(form: FormView, home: Option<Seq<char>>)
    requires
        form.kind == ActionKind::CreateWallet,
        spec_requested_number(form) matches Some(n) && n >= 1,
        form.value("password"@).len() > 0,
    ensures
        spec_build_command(form, home) matches Ok(args) && {
            let dir = spec_normalize_path(form.value("keystore_dir"@), home);
            let target = if dir.len() == 0 {
                spec_default_keystore_dir(home)
            } else {
                dir
            };
            let name = form.value("account_name"@);
            let k = args.len() as int;
            &&& args[0] == "wallet"@
            &&& args[1] == "new"@
            &&& k >= 5
            &&& args[k - 1] == form.value("password"@)
            &&& args[k - 2] == "--unsafe-password"@
            &&& if name.len() > 0 {
                args[k - 3] == name && args[k - 4] == target
            } else {
                args[k - 3] == target
            }
        },
{
}

/// An argument as the command preview shows it: in double quotes when it holds a space.
pub open spec fn spec_quote_arg(arg: Seq<char>) -> Seq<char> {
    if arg.contains(' ') {
        seq!['"'] + arg + seq!['"']
    } else {
        arg
    }
}

/// The arguments as the command preview shows them: each quoted as [`spec_quote_arg`] says,
/// separated by single spaces.
pub open spec fn spec_command_preview(args: Seq<Seq<char>>) -> Seq<char> {
    spec_join(args.map_values(|a: Seq<char>| spec_quote_arg(a)), seq![' '])
}

fn quote_arg(arg: &String) -> (r: String)
    ensures
        r@ == spec_quote_arg(arg@),
{
    if contains_char(arg.as_str(), ' ') {
        let mut r = String::new();
        push_char(&mut r, '"');
        r.append(arg.as_str());
        push_char(&mut r, '"');
        assert(r@ =~= seq!['"'] + arg@ + seq!['"']);
        r
    } else {
        arg.clone()
    }
}

/// The command line shown to the user: the arguments separated by spaces, each one that
/// holds a space in double quotes.
pub fn format_command_preview(args: &[String]) -> (r: String)
    ensures
        r@ == spec_command_preview(string_texts(args@)),
{
    let mut quoted: Vec<String> = Vec::new();
    let n = args.len();
    let mut i: usize = 0;
    while i < n
        invariant
            n == args@.len(),
            i <= n,
            quoted@.len() == i,
            forall|j: int| 0 <= j < i ==> (#[trigger] quoted@[j])@ == spec_quote_arg(args@[j]@),
        decreases n - i,
    {
        quoted.push(quote_arg(&args[i]));
        i = i + 1;
    }
    let mut sep = String::new();
    push_char(&mut sep, ' ');
    assert(quoted@.map_values(|s: String| s@) =~= string_texts(args@).map_values(
        |a: Seq<char>| spec_quote_arg(a),
    ));
    join(quoted.as_slice(), sep.as_str())
}

/// What `String::from_utf8_lossy` makes of some bytes.
pub uninterp spec fn spec_utf8_lossy(bytes: Seq<u8>) -> Seq<char>;

/// Calls `String::from_utf8_lossy`, which decodes UTF-8 and puts U+FFFD in place of each
/// invalid sequence; its documentation says that valid UTF-8 comes back unchanged. What it
/// makes of invalid bytes is left to the name `spec_utf8_lossy`.
#[verifier::external_body]
pub fn utf8_lossy(bytes: &[u8]) -> (r: String)
    ensures
        r@ == spec_utf8_lossy(bytes@),
        valid_utf8(bytes@) ==> r@ == decode_utf8(bytes@),
{
    let text: Cow<str> = String::from_utf8_lossy(bytes);
    text.into_owned()
}

/// What the output panel shows after a run: the trimmed standard output and standard
/// error, separated by a blank line when both have text, or `(no output)` when neither has.
pub open spec fn spec_combined_output(stdout: Seq<char>, stderr: Seq<char>) -> Seq<char> {
    let out = spec_trim(stdout);
    let err = spec_trim(stderr);
    if out.len() == 0 && err.len() == 0 {
        "(no output)"@
    } else if out.len() == 0 {
        err
    } else if err.len() == 0 {
        out
    } else {
        out + "\n\n"@ + err
    }
}

/// The output panel's text for a run that wrote `stdout` and `stderr`.
pub fn combined_output(stdout: &str, stderr: &str) -> (r: String)
    ensures
        r@ == spec_combined_output(stdout@, stderr@),
{
    let out = trim(stdout);
    let err = trim(stderr);
    if out.unicode_len() == 0 && err.unicode_len() == 0 {
        String::from_str("(no output)")
    } else if out.unicode_len() == 0 {
        String::from_str(err)
    } else if err.unicode_len() == 0 {
        String::from_str(out)
    } else {
        concat3(out, "\n\n", err)
    }
}

/// What one run of `cast` with `args` reports, given the bytes it wrote to standard output
/// and standard error and whether it exited with success.
pub fn cast_command_result(args: &[String], stdout: &[u8], stderr: &[u8], success: bool) -> (r:
    CommandResult)
    ensures
        r.command_preview@ == "cast "@ + spec_command_preview(string_texts(args@)),
        r.output@ == spec_combined_output(spec_utf8_lossy(stdout@), spec_utf8_lossy(stderr@)),
        r.success == success,
{
    let out = utf8_lossy(stdout);
    let err = utf8_lossy(stderr);
    let preview = format_command_preview(args);
    CommandResult {
        command_preview: concat("cast ", preview.as_str()),
        output: combined_output(out.as_str(), err.as_str()),
        success,
    }
}

impl AppView {
    /// The state after a run whose input was refused with `message`.
    pub open spec fn run_refused(self, message: Seq<char>) -> AppView {
        AppView { output: message, status: "Missing or invalid input"@, ..self }
    }

    /// The state after `cast` ran and reported `result`.
    pub open spec fn run_finished(self, preview: Seq<char>, output: Seq<char>, success: bool) -> AppView {
        AppView {
            last_command: preview,
            output,
            status: if success {
                "Command finished"@
            } else {
                "cast wallet returned a non-zero status"@
            },
            ..self
        }
    }

    /// The state after `cast` could not be started for `args`, with `message` as the error.
    pub open spec fn run_not_launched(self, args: Seq<Seq<char>>, message: Seq<char>) -> AppView {
        AppView {
            last_command: "cast "@ + spec_join(args, " "@),
            output: message,
            status: "Failed to launch cast"@,
            ..self
        }
    }
}

impl App {
    /// Starts a run of the selected form, with `home` as the home directory. Returns the
    /// arguments to hand to `cast` and leaves the state as it is; or, when the input is
    /// missing or invalid, shows the error and returns `None`.
    pub fn run(&mut self, home: Option<&str>) -> (r: Option<Vec<String>>)
        requires
            old(self).selected_action < old(self).forms.len(),
        ensures
            match spec_build_command(old(self)@.current_form(), opt_text(home)) {
                Ok(args) => (r matches Some(v) && string_texts(v@) == args) && final(self)@ == old(self)@,
                Err(m) => r is None && final(self)@ == old(self)@.run_refused(m),
            },
    {
        match build_command(self.current_form(), home) {
            Ok(args) => Some(args),
            Err(err) => {
                self.output = err.text();
                self.status = String::from_str("Missing or invalid input");
                None
            },
        }
    }

    /// Ends a run: shows what `cast` reported.
    pub fn record_command_result(&mut self, result: CommandResult)
        ensures
            final(self)@ == old(self)@.run_finished(
                result.command_preview@,
                result.output@,
                result.success,
            ),
    {
        self.last_command = result.command_preview;
        self.output = result.output;
        self.status = if result.success {
            String::from_str("Command finished")
        } else {
            String::from_str("cast wallet returned a non-zero status")
        };
    }

    /// Ends a run whose `cast` process could not be started for `args`.
    pub fn record_launch_failure(&mut self, args: &[String], error: &AppError)
        ensures
            final(self)@ == old(self)@.run_not_launched(string_texts(args@), error.spec_text()),
    {
        let joined = join(args, " ");
        self.last_command = concat("cast ", joined.as_str());
        self.output = error.text();
        self.status = String::from_str("Failed to launch cast");
    }
}

} // verus!

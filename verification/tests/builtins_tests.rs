use shell_core::builtins::{cd, cd_request, echo, exit, pwd, type_cmd, Context, Resolved};
use shell_core::registry::{Builtin, Builtins};

fn owned(items: &[&str]) -> Vec<String> {
    items.iter().map(|s| s.to_string()).collect()
}

fn session(registry: &Builtins) -> Context<'_> {
    Context::new("/home/me".to_string(), registry)
        .with_search_path(owned(&["/d1", "/d2"]))
        .with_home("/home/me/base".to_string())
}

fn found(path: &str, is_dir: bool) -> Resolved {
    Resolved { path: path.to_string(), is_dir }
}

#[test]
fn new_context_starts_clean() {
    let registry = Builtins::standard();
    let mut c = Context::new("/start".to_string(), &registry);
    assert_eq!(c.last_status(), 0);
    assert_eq!(c.working_directory(), "/start");
    assert_eq!(c.home(), "");
    assert_eq!(c.candidates("ls"), Vec::<String>::new());
    assert_eq!(c.take_output(), Vec::<String>::new());
    assert_eq!(c.builtin("echo"), Some(Builtin::Echo));
    assert_eq!(c.builtin("ls"), None);
}

#[test]
fn context_keeps_what_it_was_set_up_with() {
    let registry = Builtins::standard();
    let c = session(&registry);
    assert_eq!(c.home(), "/home/me/base");
    assert_eq!(c.working_directory(), "/home/me");
    assert_eq!(c.last_status(), 0);
    assert_eq!(c.candidates("ls"), owned(&["/d1/ls", "/d2/ls"]));
}

#[test]
fn context_records_status_and_output() {
    let registry = Builtins::standard();
    let mut c = session(&registry);
    c.complete(7);
    assert_eq!(c.last_status(), 7);
    c.print("one".to_string());
    c.print("two".to_string());
    assert_eq!(c.take_output(), owned(&["one", "two"]));
    assert_eq!(c.take_output(), Vec::<String>::new());
    assert_eq!(c.last_status(), 7);
}

#[test]
fn find_file_prefers_the_earlier_directory() {
    let registry = Builtins::standard();
    let c = session(&registry);
    let files = owned(&["/d2/foo", "/d1/foo"]);
    assert_eq!(c.find_file("foo", &files), Some("/d1/foo".to_string()));
    assert_eq!(c.find_file("foo", &owned(&["/d2/foo"])), Some("/d2/foo".to_string()));
    assert_eq!(c.find_file("foo", &[]), None);
    assert_eq!(c.find_file("bar", &files), None);
}

#[test]
fn exit_without_arguments_passes_the_last_status_on() {
    let registry = Builtins::standard();
    let mut c = session(&registry);
    assert_eq!(exit(&mut c, &[]), Err(0));
    c.complete(3);
    assert_eq!(exit(&mut c, &[]), Err(3));
    c.complete(-1);
    assert_eq!(exit(&mut c, &[]), Err(-1));
    assert_eq!(c.last_status(), -1);
    assert_eq!(c.take_output(), Vec::<String>::new());
}

#[test]
fn exit_with_a_number_ends_with_it() {
    let registry = Builtins::standard();
    let mut c = session(&registry);
    c.complete(3);
    assert_eq!(exit(&mut c, &["42"]), Err(42));
    assert_eq!(exit(&mut c, &["0"]), Err(0));
    assert_eq!(exit(&mut c, &["-5"]), Err(-5));
    assert_eq!(exit(&mut c, &["+300"]), Err(300));
    assert_eq!(c.last_status(), 3);
}

#[test]
fn exit_with_no_number_ends_with_zero() {
    let registry = Builtins::standard();
    let mut c = session(&registry);
    c.complete(3);
    assert_eq!(exit(&mut c, &["notanumber"]), Err(0));
    assert_eq!(exit(&mut c, &["abc"]), Err(0));
    assert_eq!(exit(&mut c, &[""]), Err(0));
    assert_eq!(exit(&mut c, &["99999999999"]), Err(0));
    assert_eq!(exit(&mut c, &["4x"]), Err(0));
}

#[test]
fn exit_with_more_arguments_passes_the_last_status_on() {
    let registry = Builtins::standard();
    let mut c = session(&registry);
    c.complete(9);
    assert_eq!(exit(&mut c, &["1", "2"]), Err(9));
    assert_eq!(exit(&mut c, &["x", "y", "z"]), Err(9));
}

#[test]
fn echo_writes_its_arguments_with_single_spaces() {
    let registry = Builtins::standard();
    let mut c = session(&registry);
    c.complete(5);
    assert_eq!(echo(&mut c, &["a", "b", "c"]), Ok(0));
    assert_eq!(c.take_output(), owned(&["a b c"]));
    assert_eq!(echo(&mut c, &[]), Ok(0));
    assert_eq!(c.take_output(), owned(&[""]));
    assert_eq!(echo(&mut c, &["hello"]), Ok(0));
    assert_eq!(c.take_output(), owned(&["hello"]));
    assert_eq!(c.last_status(), 5);
    assert_eq!(c.working_directory(), "/home/me");
}

#[test]
fn pwd_writes_the_working_directory() {
    let registry = Builtins::standard();
    let mut c = session(&registry);
    assert_eq!(pwd(&mut c, &[]), Ok(0));
    assert_eq!(pwd(&mut c, &["ignored", "too"]), Ok(0));
    assert_eq!(c.take_output(), owned(&["/home/me", "/home/me"]));
}

#[test]
fn cd_asks_for_the_path_of_its_one_argument() {
    let registry = Builtins::standard();
    let c = session(&registry);
    assert_eq!(cd_request(&c, &["sub"]), Some("/home/me/sub".to_string()));
    assert_eq!(cd_request(&c, &[".."]), Some("/home/me/..".to_string()));
    assert_eq!(cd_request(&c, &["/does/not/exist"]), Some("/does/not/exist".to_string()));
    assert_eq!(cd_request(&c, &["~"]), Some("/home/me/~".to_string()));
    assert_eq!(cd_request(&c, &[]), None);
    assert_eq!(cd_request(&c, &["a", "b"]), None);
}

#[test]
fn cd_without_arguments_goes_home() {
    let registry = Builtins::standard();
    let mut c = session(&registry);
    assert_eq!(cd(&mut c, &[], None), Ok(0));
    assert_eq!(c.working_directory(), "/home/me/base");
    assert_eq!(c.take_output(), Vec::<String>::new());
    let mut bare = Context::new("/start".to_string(), &registry);
    assert_eq!(cd(&mut bare, &[], None), Ok(0));
    assert_eq!(bare.working_directory(), "");
}

#[test]
fn cd_enters_a_directory() {
    let registry = Builtins::standard();
    let mut c = session(&registry);
    let target = found("/real/place", true);
    assert_eq!(cd(&mut c, &["place"], Some(&target)), Ok(0));
    assert_eq!(c.working_directory(), "/real/place");
    assert_eq!(c.take_output(), Vec::<String>::new());
    assert_eq!(pwd(&mut c, &[]), Ok(0));
    assert_eq!(c.take_output(), owned(&["/real/place"]));
}

#[test]
fn cd_to_what_does_not_exist_stays_and_complains() {
    let registry = Builtins::standard();
    let mut c = session(&registry);
    assert_eq!(cd(&mut c, &["/does/not/exist"], None), Ok(1));
    assert_eq!(c.working_directory(), "/home/me");
    assert_eq!(c.take_output(), owned(&["/does/not/exist: No such file or directory"]));
    assert_eq!(cd(&mut c, &["/does/not/exist"], None), Ok(1));
    assert_eq!(c.working_directory(), "/home/me");
}

#[test]
fn cd_to_what_is_no_directory_stays_and_complains() {
    let registry = Builtins::standard();
    let mut c = session(&registry);
    let target = found("/etc/passwd", false);
    assert_eq!(cd(&mut c, &["../../etc/passwd"], Some(&target)), Ok(1));
    assert_eq!(c.working_directory(), "/home/me");
    assert_eq!(c.take_output(), owned(&["/etc/passwd: No such file or directory"]));
}

#[test]
fn cd_with_more_arguments_does_nothing() {
    let registry = Builtins::standard();
    let mut c = session(&registry);
    let target = found("/real/place", true);
    assert_eq!(cd(&mut c, &["a", "b"], Some(&target)), Ok(1));
    assert_eq!(cd(&mut c, &["a", "b", "c"], None), Ok(1));
    assert_eq!(c.working_directory(), "/home/me");
    assert_eq!(c.take_output(), Vec::<String>::new());
}

#[test]
fn type_reports_a_builtin() {
    let registry = Builtins::standard();
    let mut c = session(&registry);
    for name in ["exit", "echo", "type", "pwd", "cd"] {
        assert_eq!(type_cmd(&mut c, &[name], &[]), Ok(0));
        assert_eq!(c.take_output(), vec![format!("{} is a shell builtin", name)]);
    }
}

#[test]
fn type_asks_the_registry_before_the_search_path() {
    let registry = Builtins::standard();
    let mut c = session(&registry);
    let files = owned(&["/d1/echo", "/d2/echo"]);
    assert_eq!(type_cmd(&mut c, &["echo"], &files), Ok(0));
    assert_eq!(c.take_output(), owned(&["echo is a shell builtin"]));
}

#[test]
fn type_reports_where_a_program_is() {
    let registry = Builtins::standard();
    let mut c = session(&registry);
    assert_eq!(type_cmd(&mut c, &["ls"], &owned(&["/d2/ls"])), Ok(0));
    assert_eq!(c.take_output(), owned(&["ls is /d2/ls"]));
    assert_eq!(type_cmd(&mut c, &["ls"], &owned(&["/d2/ls", "/d1/ls"])), Ok(0));
    assert_eq!(c.take_output(), owned(&["ls is /d1/ls"]));
}

#[test]
fn type_reports_what_is_not_found() {
    let registry = Builtins::standard();
    let mut c = session(&registry);
    c.complete(4);
    assert_eq!(type_cmd(&mut c, &["zzzz"], &[]), Ok(0));
    assert_eq!(c.take_output(), owned(&["zzzz not found"]));
    assert_eq!(type_cmd(&mut c, &["zzzz"], &owned(&["/d3/zzzz"])), Ok(0));
    assert_eq!(c.take_output(), owned(&["zzzz not found"]));
    assert_eq!(c.last_status(), 4);
}

#[test]
fn type_with_another_count_of_arguments_says_how_to_use_it() {
    let registry = Builtins::standard();
    let mut c = session(&registry);
    assert_eq!(type_cmd(&mut c, &[], &[]), Ok(1));
    assert_eq!(c.take_output(), owned(&["type function requires arguments"]));
    assert_eq!(type_cmd(&mut c, &["a", "b"], &owned(&["/d1/a"])), Ok(1));
    assert_eq!(c.take_output(), owned(&["type function requires arguments"]));
}

#[test]
fn type_goes_by_the_registry_of_the_context() {
    let mut registry = Builtins::new();
    registry.insert("say", Builtin::Echo);
    let mut c = Context::new("/".to_string(), &registry).with_search_path(owned(&["/bin"]));
    assert_eq!(type_cmd(&mut c, &["say"], &[]), Ok(0));
    assert_eq!(type_cmd(&mut c, &["echo"], &owned(&["/bin/echo"])), Ok(0));
    assert_eq!(c.take_output(), owned(&["say is a shell builtin", "echo is /bin/echo"]));
}

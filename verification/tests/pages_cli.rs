use vault::cli::{
    InitCommand, MainCommands, OpenCommand, OpenOpts, Plan, ServeCommand, VaultOpts,
};
use vault::pages::{page_nav, FlashType, NavItem, Page};

fn open_opts(file: &str, no_browser: bool, port: u16) -> OpenOpts {
    OpenOpts {
        sqlite_file: file.to_owned(),
        no_browser,
        port,
    }
}

#[test]
fn nav_items_carry_their_fields() {
    let shown = NavItem::new("Write".to_owned(), "/".to_owned());
    assert_eq!(shown.title, "Write");
    assert_eq!(shown.link, "/");
    assert!(!shown.hidden);

    let tucked_away = NavItem::hidden("Log In".to_owned(), "/login".to_owned());
    assert_eq!(tucked_away.title, "Log In");
    assert_eq!(tucked_away.link, "/login");
    assert!(tucked_away.hidden);
}

#[test]
fn a_new_page_is_plain_until_flashed() {
    let nav = vec![NavItem::new("Read".to_owned(), "/read".to_owned())];
    let mut page = Page::new("/read".to_owned(), "Read Posts".to_owned(), nav);
    assert_eq!(page.rel_path, "/read");
    assert_eq!(page.title, "Read Posts");
    assert_eq!(page.nav.len(), 1);
    assert!(page.flash.is_none());
    assert!(page.previous.is_none());
    assert!(page.next.is_none());

    page.flash_success("Post saved.".to_owned());
    let flash = page.flash.as_ref().unwrap();
    assert_eq!(flash.message, "Post saved.");
    assert!(matches!(flash.flash_type, FlashType::Success));
    assert_eq!(page.title, "Read Posts");
}

#[test]
fn page_nav_steps_by_the_limit() {
    // First page, entries came back: no previous, next steps forward.
    assert_eq!(page_nav(0, 50, 50), (None, Some(50)));
    // Middle page.
    assert_eq!(page_nav(50, 50, 50), (Some(0), Some(100)));
    // Previous never steps past the start.
    assert_eq!(page_nav(30, 50, 10), (Some(0), Some(80)));
    // An empty page gets no next link.
    assert_eq!(page_nav(100, 50, 0), (Some(50), None));
    // The next offset saturates instead of wrapping.
    assert_eq!(page_nav(usize::MAX, 50, 1), (Some(usize::MAX - 50), Some(usize::MAX)));
}

#[test]
fn open_serves_as_asked() {
    let cmd = OpenCommand {
        opts: open_opts("journal.db", false, 8080),
    };
    match cmd.run() {
        Plan::Serve(o) => {
            assert_eq!(o.sqlite_file, "journal.db");
            assert!(!o.no_browser);
            assert_eq!(o.port, 8080);
        }
        Plan::Init(_) => panic!("open must serve"),
    }
}

#[test]
fn serve_forces_the_browser_off() {
    let cmd = ServeCommand {
        opts: open_opts("journal.db", false, 9090),
    };
    match cmd.run() {
        Plan::Serve(o) => {
            assert_eq!(o.sqlite_file, "journal.db");
            assert!(o.no_browser);
            assert_eq!(o.port, 9090);
        }
        Plan::Init(_) => panic!("serve must serve"),
    }
}

#[test]
fn the_command_line_dispatches() {
    let init = VaultOpts {
        verbose: 0,
        command: MainCommands::Init(InitCommand {
            sqlite_file: "fresh.db".to_owned(),
        }),
    };
    match init.run() {
        Plan::Init(path) => assert_eq!(path, "fresh.db"),
        Plan::Serve(_) => panic!("init must init"),
    }

    let serve = VaultOpts {
        verbose: 1,
        command: MainCommands::Serve(ServeCommand {
            opts: open_opts("a.db", false, 8080),
        }),
    };
    match serve.run() {
        Plan::Serve(o) => assert!(o.no_browser),
        Plan::Init(_) => panic!("serve must serve"),
    }
}

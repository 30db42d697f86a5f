use remux_core::command::{CommandRegistry, register_builtins};
use remux_core::config::{UserConfig, resolve_modifiers};
use remux_core::editor::{Editor, ISearchDir, InputMode};
use remux_core::events::IoRequest;
use remux_core::hooks::HookRegistry;
use remux_core::keys::{KeyMap, Key, Modifiers, PhysicalModifiers, parse_modifiers, parse_mod_mask,
    PHYS_ALT, PHYS_CTRL, PHYS_SHIFT};
use remux_core::minibuffer::MiniBufferMode;
use remux_core::prefix::PrefixState;
use remux_core::to_chars;

fn editor_with(text: &str) -> Editor {
    let mut reg = CommandRegistry::new();
    register_builtins(&mut reg);
    let mut ed = Editor::new(reg, KeyMap::new(), UserConfig::default());
    ed.buffer.load_text(&to_chars(text), String::from("scratch.txt"));
    ed.viewport_width = 40;
    ed.viewport_height = 10;
    ed
}

fn line(ed: &Editor, i: usize) -> String {
    ed.buffer.lines[i].text.iter().collect()
}

fn mb_text(ed: &Editor) -> String {
    ed.minibuffer.text.iter().collect()
}

#[test]
fn digit_prefix_consumes_into_motion() {
    let mut ed = editor_with("abcdefgh");
    ed.execute_named("digit-argument-3");
    assert_eq!(ed.prefix, PrefixState::Digits(3));
    ed.execute_named("move-right");
    assert_eq!((ed.buffer.cursor_x, ed.buffer.cursor_y), (3, 0));
    assert_eq!(ed.prefix, PrefixState::Idle);
}

#[test]
fn digits_accumulate_in_base_ten() {
    let mut ed = editor_with("x");
    ed.execute_named("digit-argument-1");
    ed.execute_named("digit-argument-2");
    assert_eq!(ed.prefix, PrefixState::Digits(12));
    assert_eq!(mb_text(&ed), "C-u 12");
    let mut p = ed.prefix;
    assert_eq!(p.consume(), Some(12));
    assert_eq!(p, PrefixState::Idle);
}

#[test]
fn universal_argument_multiplies_by_four() {
    let mut ed = editor_with("x");
    ed.execute_named("universal-argument");
    ed.execute_named("universal-argument");
    assert_eq!(ed.prefix, PrefixState::Universal(16));
}

#[test]
fn unknown_command_shows_message() {
    let mut ed = editor_with("x");
    ed.execute_named("no-such-command");
    assert_eq!(mb_text(&ed), "Unknown command: no-such-command");
}

#[test]
fn isearch_forward_finds_and_restores_on_abort() {
    let mut ed = editor_with("foo\nbar foo baz");
    ed.isearch_start(ISearchDir::Forward);
    assert_eq!(ed.mode, InputMode::MiniBuffer);
    for c in "foo".chars() {
        ed.minibuffer.push(c);
        ed.isearch_update();
    }
    assert_eq!((ed.buffer.cursor_x, ed.buffer.cursor_y), (0, 0));
    ed.isearch_next();
    assert_eq!((ed.buffer.cursor_x, ed.buffer.cursor_y), (4, 1));
    ed.isearch_abort();
    assert_eq!((ed.buffer.cursor_x, ed.buffer.cursor_y), (0, 0));
    assert_eq!(ed.mode, InputMode::Normal);
    assert!(ed.isearch.is_none());
}

#[test]
fn kill_region_command_fills_kill_ring_and_clears_mark() {
    let mut ed = editor_with("hello");
    ed.execute_named("set-mark-command");
    ed.execute_named("digit-argument-3");
    ed.execute_named("move-right");
    ed.execute_named("kill-region");
    assert_eq!(line(&ed, 0), "lo");
    assert_eq!((ed.buffer.cursor_x, ed.buffer.cursor_y), (0, 0));
    assert!(ed.buffer.mark.is_none());
    let killed: String = ed.kill_buffer.as_ref().expect("kill ring").iter().collect();
    assert_eq!(killed, "hel");
}

#[test]
fn yank_pastes_kill_ring() {
    let mut ed = editor_with("ab");
    ed.push_kill(to_chars("X\nY"));
    ed.execute_named("yank");
    assert_eq!(line(&ed, 0), "X");
    assert_eq!(line(&ed, 1), "Yab");
    assert_eq!(mb_text(&ed), "Yanked");
}

#[test]
fn yank_with_empty_kill_ring_reports_it() {
    let mut ed = editor_with("ab");
    ed.execute_named("yank");
    assert_eq!(mb_text(&ed), "Kill buffer empty");
    assert_eq!(line(&ed, 0), "ab");
}

#[test]
fn hooks_fire_in_registration_order() {
    let mut hooks = HookRegistry::new();
    hooks.add("cursor-moved", 11);
    hooks.add("cursor-moved", 22);
    hooks.add("buffer-changed", 33);
    hooks.add("cursor-moved", 44);
    assert_eq!(hooks.plan("cursor-moved"), vec![11, 22, 44]);
    assert_eq!(hooks.plan("buffer-changed"), vec![33]);
    assert_eq!(hooks.plan("before-exit"), Vec::<u64>::new());
    assert_eq!(hooks.take("cursor-moved"), vec![11, 22, 44]);
    assert_eq!(hooks.plan("cursor-moved"), Vec::<u64>::new());
    assert_eq!(hooks.plan("buffer-changed"), vec![33]);
}

#[test]
fn command_bracket_appears_in_hook_outbox() {
    let mut ed = editor_with("ab");
    ed.execute_named("move-right");
    let names: Vec<String> = ed.hook_outbox.iter().map(|h| h.name.clone()).collect();
    assert_eq!(names, vec!["before-command", "after-command", "cursor-moved"]);
    let arg: String = ed.hook_outbox[2].arg.iter().collect();
    assert_eq!(arg, "1,0");
}

#[test]
fn keymap_newest_binding_wins_and_mods_are_subset_matched() {
    let mut km = KeyMap::new();
    km.bind(Modifiers::from_bits(0b001), 'f', String::from("move-right"));
    let hit = km.lookup(Modifiers::from_bits(0b011), 'f').expect("binding");
    assert_eq!(hit.as_str(), "move-right");
    assert!(km.lookup(Modifiers::from_bits(0b000), 'f').is_none());
    km.bind(Modifiers::from_bits(0b000), 'f', String::from("move-left"));
    let plain = km.lookup(Modifiers::from_bits(0b000), 'f').expect("binding");
    assert_eq!(plain.as_str(), "move-left");
    let newest = km.lookup(Modifiers::from_bits(0b011), 'f').expect("binding");
    assert_eq!(newest.as_str(), "move-left");
    assert!(km.lookup(Modifiers::from_bits(0b000), 'g').is_none());
}

#[test]
fn modifier_strings_parse() {
    assert_eq!(parse_modifiers("mod0+mod2").bits, 0b101);
    assert_eq!(parse_modifiers("mod1").bits, 0b010);
    assert_eq!(parse_modifiers("bogus").bits, 0);
    let (phys, key) = parse_mod_mask("ctrl+alt");
    assert_eq!(phys.bits, PHYS_CTRL | PHYS_ALT);
    assert_eq!(key, None);
    let (phys2, key2) = parse_mod_mask("ctrl+x");
    assert_eq!(phys2.bits, PHYS_CTRL);
    assert_eq!(key2, Some('x'));
}

#[test]
fn modifier_tokens_are_trimmed_and_case_folded() {
    assert_eq!(parse_modifiers(" MOD1 + Mod2").bits, 0b110);
    let (phys, key) = parse_mod_mask("Ctrl + X");
    assert_eq!(phys.bits, PHYS_CTRL);
    assert_eq!(key, Some('x'));
    let (phys2, key2) = parse_mod_mask("ALT+Meta");
    assert_eq!(phys2.bits, PHYS_ALT | 0b1000);
    assert_eq!(key2, None);
}

#[test]
fn prefix_key_is_swallowed_and_armed() {
    let mut cfg = UserConfig::default();
    cfg.set_mod_binding(1, PhysicalModifiers::from_bits(PHYS_CTRL), Some('x'));
    let (mods, pending) = resolve_modifiers(
        &cfg,
        PhysicalModifiers::from_bits(PHYS_CTRL),
        Some('x'),
        None,
    );
    assert_eq!(mods.bits, 0);
    assert_eq!(pending, Some(1));
    let (mods2, pending2) = resolve_modifiers(
        &cfg,
        PhysicalModifiers::from_bits(0),
        Some('s'),
        pending,
    );
    assert_eq!(mods2.bits, 0b010);
    assert_eq!(pending2, None);
}

#[test]
fn alt_maps_to_first_logical_modifier_by_default() {
    let cfg = UserConfig::default();
    let (mods, pending) = resolve_modifiers(
        &cfg,
        PhysicalModifiers::from_bits(PHYS_ALT | PHYS_SHIFT),
        Some('a'),
        None,
    );
    assert_eq!(mods.bits, 0b001);
    assert_eq!(pending, None);
}

#[test]
fn handle_key_inserts_unbound_plain_characters() {
    let mut ed = editor_with("");
    ed.handle_key(Key::Char('h'), PhysicalModifiers::from_bits(0));
    ed.handle_key(Key::Char('i'), PhysicalModifiers::from_bits(0));
    assert_eq!(line(&ed, 0), "hi");
    ed.handle_key(Key::Char('c'), PhysicalModifiers::from_bits(PHYS_CTRL));
    assert!(ed.should_quit);
}

#[test]
fn goto_line_via_minibuffer_clamps_into_buffer() {
    let mut ed = editor_with("a\nb\nc");
    ed.execute_named("goto-line");
    assert_eq!(ed.mode, InputMode::MiniBuffer);
    assert_eq!(ed.minibuffer.mode, MiniBufferMode::GotoLine);
    for c in "2".chars() {
        ed.minibuffer.push(c);
    }
    ed.execute_minibuffer();
    assert_eq!(ed.buffer.cursor_y, 1);
    assert_eq!(ed.mode, InputMode::Normal);
    ed.execute_named("goto-line");
    for c in "99".chars() {
        ed.minibuffer.push(c);
    }
    ed.execute_minibuffer();
    assert_eq!(ed.buffer.cursor_y, 2);
}

#[test]
fn save_buffer_queues_a_write_request() {
    let mut ed = editor_with("alpha\nbeta");
    ed.execute_named("save-buffer");
    assert_eq!(ed.io_queue.len(), 1);
    match &ed.io_queue[0] {
        IoRequest::SaveFile { path, content } => {
            assert_eq!(path.as_str(), "scratch.txt");
            let text: String = content.iter().collect();
            assert_eq!(text, "alpha\nbeta");
        },
        _ => panic!("expected a save request"),
    }
}

#[test]
fn toggle_line_wrap_flips_mode() {
    let mut ed = editor_with("x");
    let before = ed.wrap_mode;
    ed.execute_named("toggle-line-wrap");
    assert_ne!(ed.wrap_mode, before);
    assert_eq!(mb_text(&ed), "Toggled LineWrap Mode");
}

#[test]
fn minibuffer_message_expires_after_two_ticks() {
    let mut ed = editor_with("x");
    ed.minibuffer.message("hello");
    assert!(ed.minibuffer.is_active());
    ed.minibuffer.tick();
    assert!(ed.minibuffer.is_active());
    ed.minibuffer.tick();
    assert!(!ed.minibuffer.is_active());
    assert_eq!(mb_text(&ed), "");
}

#[test]
fn visible_visual_lines_wrap_and_truncate() {
    let mut ed = editor_with("0123456789\nab");
    ed.viewport_width = 4;
    ed.viewport_height = 3;
    let rows = ed.visible_visual_lines();
    assert_eq!(rows.len(), 3);
    assert_eq!((rows[0].buffer_y, rows[0].start_x), (0, 0));
    assert_eq!((rows[1].buffer_y, rows[1].start_x), (0, 4));
    assert_eq!((rows[2].buffer_y, rows[2].start_x), (0, 8));
    ed.scroll_y = 3;
    let rows2 = ed.visible_visual_lines();
    assert_eq!(rows2.len(), 1);
    assert_eq!((rows2[0].buffer_y, rows2[0].start_x), (1, 0));
}

#[test]
fn ensure_cursor_visible_brackets_the_cursor_row() {
    let mut ed = editor_with("a\nb\nc\nd\ne\nf\ng\nh");
    ed.viewport_width = 4;
    ed.viewport_height = 3;
    ed.goto_line(8);
    assert!(ed.scroll_y <= 7);
    assert!(7 < ed.scroll_y + 3);
    ed.goto_line(1);
    assert_eq!(ed.scroll_y, 0);
}

#[test]
fn status_reports_cursor_and_modified() {
    let mut ed = editor_with("hello\nworld");
    ed.execute_named("move-down");
    ed.execute_named("move-right");
    let st = ed.build_status();
    assert_eq!(st.cursor_line, 2);
    assert_eq!(st.cursor_col, 2);
    assert!(!st.modified);
    let name: String = st.file_name.iter().collect();
    assert_eq!(name, "scratch.txt");
}

#[test]
fn events_are_drained_in_order() {
    let mut ed = editor_with("ab");
    ed.execute(remux_core::events::EditorEvent::ExecuteCommand(String::from("move-right")));
    ed.execute(remux_core::events::EditorEvent::Message(String::from("hi")));
    ed.process_events();
    assert_eq!(ed.buffer.cursor_x, 1);
    assert_eq!(mb_text(&ed), "hi");
    assert!(ed.event_queue.is_empty());
}

#[test]
fn page_scroll_commands_drag_the_cursor() {
    let mut ed = editor_with("a\nb\nc\nd\ne\nf\ng\nh");
    ed.viewport_width = 10;
    ed.viewport_height = 3;
    ed.execute_named("scroll-down-command");
    assert_eq!(ed.buffer.cursor_y, 3);
    ed.execute_named("scroll-down-command");
    assert_eq!(ed.buffer.cursor_y, 6);
    ed.execute_named("scroll-up-command");
    assert_eq!(ed.buffer.cursor_y, 3);
}

#[test]
fn prefix_key_swallows_the_keystroke() {
    let mut ed = editor_with("");
    ed.user_config.set_mod_binding(2, PhysicalModifiers::from_bits(PHYS_CTRL), Some('x'));
    ed.handle_key(Key::Char('x'), PhysicalModifiers::from_bits(PHYS_CTRL));
    assert_eq!(ed.pending_prefix, Some(2));
    assert_eq!(line(&ed, 0), "");
    ed.handle_key(Key::Char('y'), PhysicalModifiers::from_bits(0));
    assert_eq!(ed.pending_prefix, None);
    assert_eq!(line(&ed, 0), "");
}

#[test]
fn minibuffer_keys_edit_the_prompt_line() {
    let mut ed = editor_with("abc");
    ed.execute_named("execute-command");
    ed.handle_key(Key::Char('u'), PhysicalModifiers::from_bits(0));
    ed.handle_key(Key::Char('n'), PhysicalModifiers::from_bits(0));
    assert_eq!(mb_text(&ed), "M-x un");
    ed.handle_key(Key::Backspace, PhysicalModifiers::from_bits(0));
    assert_eq!(mb_text(&ed), "M-x u");
    ed.handle_key(Key::Esc, PhysicalModifiers::from_bits(0));
    assert_eq!(ed.mode, InputMode::Normal);
    assert!(!ed.minibuffer.is_active());
}

#[test]
fn minibuffer_enter_submits_the_command_name() {
    let mut ed = editor_with("abc");
    ed.execute_named("execute-command");
    for c in "move-right".chars() {
        ed.handle_key(Key::Char(c), PhysicalModifiers::from_bits(0));
    }
    ed.handle_key(Key::Enter, PhysicalModifiers::from_bits(0));
    assert_eq!(ed.mode, InputMode::Normal);
    assert_eq!(ed.buffer.cursor_x, 1);
}

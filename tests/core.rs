use penrose::client::{new_from_x_state, Client, ClientProperties, WmHints};
use penrose::clients::Clients;
use penrose::error::Error;
use penrose::layout::{
    bottom_stack, floating, monocle, run_layout, side_stack, Layout, LayoutKind, Ratio,
};
use penrose::region::Region;
use penrose::screen::{EventAction, HookName, Screens};
use penrose::state::{Config, State};
use penrose::workspace::Workspace;
use penrose::workspaces::Workspaces;

fn r(x: u32, y: u32, w: u32, h: u32) -> Region {
    Region::new(x, y, w, h)
}

fn side(max_main: u32) -> Layout {
    Layout { kind: LayoutKind::SideStack, max_main, ratio: Ratio { num: 3, den: 5 } }
}

fn stubs(ids: &[u32]) -> Vec<Client> {
    ids.iter().map(|&i| Client::stub(i)).collect()
}

#[test]
fn rows_split_height_and_keep_remainder() {
    let rows = r(10, 20, 300, 100).as_rows(3);
    assert_eq!(rows, vec![r(10, 20, 300, 33), r(10, 53, 300, 33), r(10, 86, 300, 34)]);
    assert_eq!(rows.iter().map(|x| x.h).sum::<u32>(), 100);
}

#[test]
fn columns_split_width_and_keep_remainder() {
    let cols = r(0, 5, 10, 50).as_columns(4);
    assert_eq!(cols, vec![r(0, 5, 2, 50), r(2, 5, 2, 50), r(4, 5, 2, 50), r(6, 5, 4, 50)]);
    assert_eq!(cols.iter().map(|x| x.w).sum::<u32>(), 10);
}

#[test]
fn zero_parts_are_empty() {
    assert!(r(0, 0, 100, 100).as_rows(0).is_empty());
    assert!(r(0, 0, 100, 100).as_columns(0).is_empty());
}

#[test]
fn split_at_width_within_and_beyond() {
    let (a, b) = r(5, 6, 100, 40).split_at_width(30).unwrap();
    assert_eq!(a, r(5, 6, 30, 40));
    assert_eq!(b, r(35, 6, 70, 40));
    assert_eq!(a.w + b.w, 100);
    let (a, b) = r(5, 6, 100, 40).split_at_width(100).unwrap();
    assert_eq!((a.w, b.w), (100, 0));
    match r(5, 6, 100, 40).split_at_width(101) {
        Err(Error::SplitOutOfBounds { at, extent }) => assert_eq!((at, extent), (101, 100)),
        other => panic!("unexpected {:?}", other),
    }
}

#[test]
fn split_at_height_within_and_beyond() {
    let (a, b) = r(0, 10, 100, 40).split_at_height(15).unwrap();
    assert_eq!(a, r(0, 10, 100, 15));
    assert_eq!(b, r(0, 25, 100, 25));
    assert!(matches!(r(0, 10, 100, 40).split_at_height(41), Err(Error::SplitOutOfBounds { .. })));
}

#[test]
fn side_stack_example_scenario() {
    let cs = stubs(&[1, 2, 3]);
    let refs: Vec<&Client> = cs.iter().collect();
    let acts = side_stack(&refs, None, &r(0, 0, 1000, 800), 1, Ratio { num: 3, den: 5 });
    assert_eq!(
        acts,
        vec![
            (1, Some(r(0, 0, 600, 800))),
            (2, Some(r(600, 0, 400, 400))),
            (3, Some(r(600, 400, 400, 400))),
        ]
    );
}

#[test]
fn side_stack_rounds_the_split() {
    let cs = stubs(&[1, 2]);
    let refs: Vec<&Client> = cs.iter().collect();
    let acts = side_stack(&refs, None, &r(0, 0, 7, 10), 1, Ratio { num: 1, den: 2 });
    assert_eq!(acts, vec![(1, Some(r(0, 0, 4, 10))), (2, Some(r(4, 0, 3, 10)))]);
}

#[test]
fn stacks_fill_region_when_all_fit_main() {
    let cs = stubs(&[7, 8, 9]);
    let refs: Vec<&Client> = cs.iter().collect();
    let reg = r(0, 0, 900, 301);
    let acts = side_stack(&refs, None, &reg, 3, Ratio { num: 1, den: 2 });
    assert_eq!(
        acts,
        vec![(7, Some(r(0, 0, 900, 100))), (8, Some(r(0, 100, 900, 100))), (9, Some(r(0, 200, 900, 101)))]
    );
    let acts = bottom_stack(&refs, None, &reg, 0, Ratio { num: 1, den: 2 });
    assert_eq!(
        acts,
        vec![(7, Some(r(0, 0, 300, 301))), (8, Some(r(300, 0, 300, 301))), (9, Some(r(600, 0, 300, 301)))]
    );
}

#[test]
fn bottom_stack_splits_height() {
    let cs = stubs(&[1, 2, 3]);
    let refs: Vec<&Client> = cs.iter().collect();
    let acts = bottom_stack(&refs, None, &r(0, 0, 1000, 800), 1, Ratio { num: 3, den: 5 });
    assert_eq!(
        acts,
        vec![
            (1, Some(r(0, 0, 1000, 480))),
            (2, Some(r(0, 480, 500, 320))),
            (3, Some(r(500, 480, 500, 320))),
        ]
    );
}

#[test]
fn monocle_shows_only_focused() {
    let cs = stubs(&[1, 2, 3]);
    let refs: Vec<&Client> = cs.iter().collect();
    let reg = r(0, 0, 640, 480);
    assert!(monocle(&refs, None, &reg, 1, Ratio { num: 1, den: 2 }).is_empty());
    let acts = monocle(&refs, Some(2), &reg, 1, Ratio { num: 1, den: 2 });
    assert_eq!(acts, vec![(1, None), (2, Some(reg)), (3, None)]);
}

#[test]
fn floating_layout_places_nothing() {
    let cs = stubs(&[1, 2]);
    let refs: Vec<&Client> = cs.iter().collect();
    assert!(floating(&refs, Some(1), &r(0, 0, 10, 10), 1, Ratio { num: 1, den: 2 }).is_empty());
    let l = Layout { kind: LayoutKind::Floating, max_main: 1, ratio: Ratio { num: 1, den: 2 } };
    assert!(run_layout(&l, &refs, Some(1), &r(0, 0, 10, 10)).is_empty());
}

#[test]
fn run_layout_selects_the_function() {
    let cs = stubs(&[1, 2, 3]);
    let refs: Vec<&Client> = cs.iter().collect();
    let acts = run_layout(&side(1), &refs, None, &r(0, 0, 1000, 800));
    assert_eq!(acts[0], (1, Some(r(0, 0, 600, 800))));
    let m = Layout { kind: LayoutKind::Monocle, max_main: 1, ratio: Ratio { num: 1, den: 2 } };
    assert_eq!(run_layout(&m, &refs, Some(3), &r(0, 0, 5, 5))[2], (3, Some(r(0, 0, 5, 5))));
}

#[test]
fn ratio_share_rounds_to_nearest() {
    assert_eq!(Ratio { num: 3, den: 5 }.share_of(1000), 600);
    assert_eq!(Ratio { num: 1, den: 3 }.share_of(5), 2);
    assert_eq!(Ratio { num: 2, den: 3 }.share_of(5), 3);
    assert_eq!(Ratio { num: 1, den: 1 }.share_of(u32::MAX), u32::MAX);
}

#[test]
fn identical_screens_are_a_no_op() {
    let mut s = Screens::new();
    let acts = s.update_known_screens(vec![r(0, 0, 100, 100), r(100, 0, 100, 100)], 3);
    assert_eq!(acts, vec![EventAction::LayoutVisible, EventAction::RunHook(HookName::ScreenUpdated)]);
    assert_eq!(s.workspace_indices, vec![0, 1]);
    let acts = s.update_known_screens(vec![r(0, 0, 100, 100), r(100, 0, 100, 100)], 3);
    assert!(acts.is_empty());
    assert_eq!(s.workspace_indices, vec![0, 1]);
}

#[test]
fn third_screen_gets_free_workspace() {
    let mut s = Screens::new();
    s.update_known_screens(vec![r(0, 0, 100, 100), r(100, 0, 100, 100)], 3);
    assert_eq!(s.workspace_indices, vec![0, 1]);
    let acts = s.update_known_screens(
        vec![r(0, 0, 100, 100), r(100, 0, 100, 100), r(200, 0, 100, 100)],
        3,
    );
    assert_eq!(acts.len(), 2);
    assert_eq!(s.workspace_indices, vec![0, 1, 2]);
}

#[test]
fn screens_skip_taken_and_stop_when_pool_is_empty() {
    let mut s = Screens::new();
    s.workspace_indices = vec![1];
    s.regions = vec![r(0, 0, 1, 1)];
    s.update_known_screens(vec![r(0, 0, 2, 2), r(2, 0, 2, 2), r(4, 0, 2, 2), r(6, 0, 2, 2)], 3);
    assert_eq!(s.workspace_indices, vec![1, 0, 2]);
}

#[test]
fn fewer_screens_truncate_slots() {
    let mut s = Screens::new();
    s.update_known_screens(vec![r(0, 0, 1, 1), r(1, 0, 1, 1), r(2, 0, 1, 1)], 5);
    assert_eq!(s.workspace_indices, vec![0, 1, 2]);
    s.update_known_screens(vec![r(0, 0, 9, 9)], 5);
    assert_eq!(s.workspace_indices, vec![0]);
    assert_eq!(s.regions, vec![r(0, 0, 9, 9)]);
}

#[test]
fn screen_lookup_and_effective_region() {
    let mut s = Screens::new();
    s.update_known_screens(vec![r(0, 0, 100, 80), r(100, 0, 50, 40)], 4);
    assert_eq!(s.indexed_screen_for_workspace(1), Some((1, r(100, 0, 50, 40))));
    assert_eq!(s.indexed_screen_for_workspace(3), None);
    assert_eq!(s.effective_region(0, 18, true), r(0, 18, 100, 62));
    assert_eq!(s.effective_region(0, 18, false), r(0, 0, 100, 62));
}

#[test]
fn clients_for_workspace_skips_unknown() {
    let mut reg = Clients::new();
    for c in stubs(&[1, 3]) {
        reg.insert(c);
    }
    let mut ws = Workspace::new("main".to_string(), side(1));
    ws.add_client(1);
    ws.add_client(2);
    ws.add_client(3);
    assert_eq!(ws.client_ids(), &vec![3, 2, 1]);
    let got: Vec<u32> = reg.clients_for_workspace(&ws).iter().map(|c| c.id()).collect();
    assert_eq!(got, vec![3, 1]);
}

#[test]
fn partition_keeps_relative_order() {
    let mut reg = Clients::new();
    for mut c in stubs(&[1, 2, 3, 4]) {
        if c.id() % 2 == 0 {
            c.set_floating(true);
        }
        reg.insert(c);
    }
    let mut ws = Workspace::new("main".to_string(), side(1));
    for id in [5, 4, 3, 2, 1] {
        ws.add_client(id);
    }
    let (fl, tiled) = reg.partitioned_clients_for_workspace(&ws);
    assert_eq!(fl.iter().map(|c| c.id()).collect::<Vec<_>>(), vec![2, 4]);
    assert_eq!(tiled.iter().map(|c| c.id()).collect::<Vec<_>>(), vec![1, 3]);
}

#[test]
fn registry_insert_get_remove() {
    let mut reg = Clients::new();
    assert!(reg.insert(Client::stub(4)).is_none());
    assert!(reg.insert(Client::stub(4)).is_some());
    assert_eq!(reg.len(), 1);
    assert!(reg.contains(4));
    assert_eq!(reg.get(4).map(|c| c.id()), Some(4));
    assert_eq!(reg.remove(4).map(|c| c.id()), Some(4));
    assert!(reg.get(4).is_none());
    assert!(reg.remove(4).is_none());
}

#[test]
fn move_round_trip_restores_workspace() {
    let mut wss = Workspaces::new(vec!["a".to_string(), "b".to_string()], side(1));
    for id in [3, 2, 1] {
        wss.workspaces[0].add_client(id);
    }
    wss.workspaces[0].focused = Some(1);
    wss.workspaces[1].add_client(9);
    assert_eq!(wss.focused_client_id(), Some(2));
    wss.move_client(2, 1).unwrap();
    assert_eq!(wss.workspaces[0].clients, vec![1, 3]);
    assert_eq!(wss.workspaces[1].clients, vec![2, 9]);
    assert_eq!(wss.workspaces[1].focused, Some(0));
    wss.move_client(2, 0).unwrap();
    assert_eq!(wss.workspaces[0].clients, vec![1, 2, 3]);
    assert_eq!(wss.workspaces[0].focused, Some(1));
    assert_eq!(wss.workspaces[1].clients, vec![9]);
    assert_eq!(wss.workspaces[1].focused, Some(0));
}

#[test]
fn move_errors_leave_state_alone() {
    let mut wss = Workspaces::new(vec!["a".to_string(), "b".to_string()], side(1));
    wss.workspaces[0].add_client(1);
    assert!(matches!(wss.move_client(1, 2), Err(Error::NoMatchingElement)));
    assert!(matches!(wss.move_client(7, 1), Err(Error::UnknownClient(7))));
    assert!(wss.move_client(1, 0).is_ok());
    assert_eq!(wss.workspaces[0].clients, vec![1]);
    assert!(wss.workspaces[1].clients.is_empty());
}

#[test]
fn focus_workspace_tracks_previous() {
    let mut wss = Workspaces::new(vec!["a".into(), "b".into(), "c".into()], side(1));
    wss.focus_workspace(2).unwrap();
    assert_eq!((wss.focused_ws, wss.prev_ws), (2, 0));
    wss.focus_workspace(2).unwrap();
    assert_eq!((wss.focused_ws, wss.prev_ws), (2, 0));
    assert!(matches!(wss.focus_workspace(3), Err(Error::NoMatchingElement)));
    assert_eq!(wss.focused_client_id(), None);
}

#[test]
fn remove_client_moves_focus() {
    let mut ws = Workspace::new("w".into(), side(1));
    for id in [3, 2, 1] {
        ws.add_client(id);
    }
    ws.focused = Some(2);
    assert_eq!(ws.remove_client(3), Some(3));
    assert_eq!(ws.focused, Some(1));
    assert_eq!(ws.focused_client(), Some(2));
    assert_eq!(ws.remove_client(8), None);
    ws.remove_client(1);
    ws.remove_client(2);
    assert_eq!(ws.focused, None);
    assert_eq!(ws.len(), 0);
}

#[test]
fn new_client_defaults_when_queries_fail() {
    let props = ClientProperties {
        name: None,
        class: None,
        protocols: None,
        window_type: None,
        hints: None,
        normal_hints: None,
    };
    let c = new_from_x_state(42, true, false, props);
    assert_eq!(c.id(), 42);
    assert_eq!(c.wm_name(), "unknown");
    assert_eq!(c.wm_class(), "unknown");
    assert!(c.wm_protocols.is_empty());
    assert_eq!(c.wm_type, vec!["_NET_WM_WINDOW_TYPE_NORMAL".to_string()]);
    assert!(c.floating && !c.accepts_focus && !c.is_fullscreen() && !c.mapped && !c.urgent);
    assert!(c.wm_managed);
}

#[test]
fn new_client_keeps_queried_properties() {
    let hints = WmHints { accepts_input: true, urgent: false };
    let props = ClientProperties {
        name: Some("term".into()),
        class: Some(vec!["st".into(), "St".into()]),
        protocols: Some(vec!["WM_DELETE_WINDOW".into()]),
        window_type: Some(vec!["_NET_WM_WINDOW_TYPE_DIALOG".into()]),
        hints: Some(hints),
        normal_hints: None,
    };
    let c = new_from_x_state(7, false, true, props);
    assert_eq!(c.wm_name(), "term");
    assert_eq!(c.wm_class(), "st");
    assert_eq!(c.wm_protocols, vec!["WM_DELETE_WINDOW".to_string()]);
    assert_eq!(c.wm_type, vec!["_NET_WM_WINDOW_TYPE_DIALOG".to_string()]);
    assert_eq!(c.wm_hints, Some(hints));
    let empty = ClientProperties {
        name: None,
        class: Some(vec![]),
        protocols: None,
        window_type: None,
        hints: None,
        normal_hints: None,
    };
    assert_eq!(new_from_x_state(8, false, true, empty).wm_class(), "unknown");
}

#[test]
fn client_flag_setters() {
    let mut c = Client::stub(1);
    assert_eq!(c.wm_name(), "stub");
    assert_eq!(c.wm_class(), "stub");
    c.set_floating(true);
    assert!(c.floating);
    c.externally_managed();
    assert!(!c.wm_managed);
    c.internally_managed();
    assert!(c.wm_managed);
}

#[test]
fn state_starts_empty() {
    let config = Config {
        workspaces: vec!["1".into(), "2".into()],
        floating_classes: vec![],
        layout: side(1),
        bar_height: 18,
        top_bar: true,
    };
    let s = State::new(config);
    assert_eq!(s.workspaces.workspaces.len(), 2);
    assert_eq!(s.clients.len(), 0);
    assert_eq!(s.screens.len(), 0);
}

#[test]
fn layout_workspace_uses_effective_region_and_tiled_clients() {
    let config = Config {
        workspaces: vec!["1".into(), "2".into(), "3".into()],
        floating_classes: vec![],
        layout: side(1),
        bar_height: 18,
        top_bar: true,
    };
    let mut s = State::new(config);
    s.screens.update_known_screens(vec![r(0, 0, 1000, 818)], 3);
    for mut c in stubs(&[1, 2, 3, 4]) {
        if c.id() == 4 {
            c.set_floating(true);
        }
        s.clients.insert(c);
    }
    for id in [4, 3, 2, 1] {
        s.workspaces.workspaces[0].add_client(id);
    }
    let acts = s.layout_workspace(0).unwrap().unwrap();
    assert_eq!(
        acts,
        vec![
            (1, Some(r(0, 18, 600, 800))),
            (2, Some(r(600, 18, 400, 400))),
            (3, Some(r(600, 418, 400, 400))),
        ]
    );
    assert!(s.layout_workspace(1).unwrap().is_none());
    s.config.bar_height = 900;
    assert!(matches!(
        s.layout_workspace(0),
        Err(Error::SplitOutOfBounds { at: 900, extent: 818 })
    ));
}

#[test]
fn moving_unfocused_client_keeps_focus() {
    let mut wss = Workspaces::new(vec!["a".to_string(), "b".to_string()], side(1));
    wss.workspaces[0].add_client(2);
    wss.workspaces[0].add_client(1);
    assert_eq!(wss.workspaces[0].clients, vec![1, 2]);
    assert_eq!(wss.focused_client_id(), Some(1));
    wss.move_client(2, 1).unwrap();
    assert_eq!(wss.workspaces[1].clients, vec![2]);
    assert_eq!(wss.workspaces[1].focused, None);
    assert_eq!(wss.focused_client_id(), Some(1));
    wss.move_client(2, 0).unwrap();
    assert_eq!(wss.focused_client_id(), Some(1));
    assert!(wss.workspaces[1].clients.is_empty());
    assert_eq!(wss.workspaces[1].focused, None);
}

#[test]
fn unfocused_client_joins_behind_destination_focus() {
    let mut wss = Workspaces::new(vec!["a".to_string(), "b".to_string()], side(1));
    for id in [3, 2, 1] {
        wss.workspaces[0].add_client(id);
    }
    for id in [8, 7] {
        wss.workspaces[1].add_client(id);
    }
    wss.move_client(3, 1).unwrap();
    assert_eq!(wss.workspaces[0].clients, vec![1, 2]);
    assert_eq!(wss.workspaces[0].focused_client(), Some(1));
    assert_eq!(wss.workspaces[1].clients, vec![3, 7, 8]);
    assert_eq!(wss.workspaces[1].focused_client(), Some(7));
    wss.move_client(3, 0).unwrap();
    assert_eq!(wss.workspaces[0].clients, vec![3, 1, 2]);
    assert_eq!(wss.workspaces[0].focused_client(), Some(1));
    assert_eq!(wss.workspaces[1].clients, vec![7, 8]);
    assert_eq!(wss.workspaces[1].focused, Some(0));
}

#[test]
fn insert_client_with_and_without_focus() {
    let mut ws = Workspace::new("w".into(), side(1));
    ws.insert_client(5, false);
    assert_eq!((ws.clients.clone(), ws.focused), (vec![5], None));
    ws.insert_client(6, true);
    assert_eq!((ws.clients.clone(), ws.focused), (vec![6, 5], Some(0)));
    ws.insert_client(7, false);
    assert_eq!((ws.clients.clone(), ws.focused), (vec![7, 6, 5], Some(1)));
    assert_eq!(ws.focused_client(), Some(6));
}

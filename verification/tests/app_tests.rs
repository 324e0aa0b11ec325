use game_of_life_engine::app::{
    app_get_settings, app_iterate, app_move_model, app_pause, app_resume, app_set_dimension,
    app_set_fps, app_set_gap, app_set_preset, app_single_iteration, app_toggle_by_point,
    app_zoom_in, app_zoom_out, app_zoom_to, build_preset_option_groups, build_presets,
    fps_to_mili, on_change, take_events, AppInfo, AppSettings, Model, Prop, Status,
};
use game_of_life_engine::coordinate::CartesianP;
use game_of_life_engine::preset::get_preset;
use game_of_life_engine::rect::Rect;
use game_of_life_engine::render::RenderSettings;
use game_of_life_engine::universe::Universe;

#[test]
fn test_instance() {
    let mut model = Model::default();
    assert_eq!(
        model.settings,
        AppSettings {
            preset: Some(String::from("block")),
            fps: 4,
            status: Status::Paused,
            render_settings: RenderSettings { cam: Rect::from(-5, -4, 4, 5), dim: 0, gap: 0 }
        }
    );
    assert_eq!(
        model.universe,
        get_preset(&String::from("block")).unwrap()
    );
    let settings = app_get_settings(&model);
    assert_eq!(
        AppInfo {
            preset: Some("block".to_string()),
            gap: 0,
            size: 10,
            fps: 4,
            status: Status::Paused,
            age: 0,
        },
        settings
    );

    app_pause(&mut model);
    assert_eq!(
        model.settings,
        AppSettings {
            preset: Some(String::from("block")),
            fps: 4,
            status: Status::Paused,
            render_settings: RenderSettings { cam: Rect::from(-5, -4, 4, 5), dim: 0, gap: 0 }
        }
    );

    app_resume(&mut model);
    assert_eq!(
        model.settings,
        AppSettings {
            preset: Some(String::from("block")),
            fps: 4,
            status: Status::Resumed,
            render_settings: RenderSettings { cam: Rect::from(-5, -4, 4, 5), dim: 0, gap: 0 }
        }
    );

    app_set_dimension(&mut model, 1080);
    assert_eq!(
        model.settings,
        AppSettings {
            preset: Some(String::from("block")),
            fps: 4,
            status: Status::Resumed,
            render_settings: RenderSettings { cam: Rect::from(-5, -4, 4, 5), dim: 1080, gap: 0 }
        }
    );

    app_set_gap(&mut model, 2);
    assert_eq!(
        model.settings,
        AppSettings {
            preset: Some(String::from("block")),
            fps: 4,
            status: Status::Resumed,
            render_settings: RenderSettings { cam: Rect::from(-5, -4, 4, 5), dim: 1080, gap: 2 }
        }
    );

    app_set_fps(&mut model, 60);
    assert_eq!(
        model.settings,
        AppSettings {
            preset: Some(String::from("block")),
            fps: 60,
            status: Status::Resumed,
            render_settings: RenderSettings { cam: Rect::from(-5, -4, 4, 5), dim: 1080, gap: 2 }
        }
    );

    app_set_preset(&mut model, "Gaius Julius Caesar".to_string());
    assert_eq!(
        model.settings,
        AppSettings {
            preset: Some(String::from("block")),
            fps: 60,
            status: Status::Resumed,
            render_settings: RenderSettings { cam: Rect::from(-5, -4, 4, 5), dim: 1080, gap: 2 }
        }
    );
    app_set_preset(&mut model, "r_pentomino".to_string());
    assert_eq!(
        model.settings,
        AppSettings {
            preset: Some(String::from("r_pentomino")),
            fps: 60,
            status: Status::Resumed,
            render_settings: RenderSettings { cam: Rect::from(-5, -5, 5, 5), dim: 1080, gap: 2 }
        }
    );
    app_set_preset(&mut model, "block".to_string());
    app_iterate(&mut model);
    let block = get_preset(&String::from("block")).unwrap();
    assert_eq!(
        model.universe,
        Universe { age: 1, value: block.value.clone() }
    );
    assert_eq!(
        model.settings,
        AppSettings {
            preset: Some(String::from("block")),
            fps: 60,
            status: Status::Resumed,
            render_settings: RenderSettings { cam: Rect::from(-5, -4, 4, 5), dim: 1080, gap: 2 }
        }
    );

    app_single_iteration(&mut model);
    assert_eq!(
        model.universe,
        Universe { age: 2, value: block.value.clone() }
    );
    assert_eq!(
        model.settings,
        AppSettings {
            preset: Some(String::from("block")),
            fps: 60,
            status: Status::Paused,
            render_settings: RenderSettings { cam: Rect::from(-5, -4, 4, 5), dim: 1080, gap: 2 }
        }
    );

    app_zoom_to(&mut model, 40);
    assert_eq!(
        model.settings,
        AppSettings {
            preset: Some(String::from("block")),
            fps: 60,
            status: Status::Paused,
            render_settings: RenderSettings { cam: Rect::from(-20, -19, 19, 20), dim: 1080, gap: 2 }
        }
    );
    app_zoom_in(&mut model);
    assert_eq!(
        model.settings,
        AppSettings {
            preset: Some(String::from("block")),
            fps: 60,
            status: Status::Paused,
            render_settings: RenderSettings { cam: Rect::from(-19, -18, 18, 19), dim: 1080, gap: 2 }
        }
    );
    app_zoom_out(&mut model);
    assert_eq!(
        model.settings,
        AppSettings {
            preset: Some(String::from("block")),
            fps: 60,
            status: Status::Paused,
            render_settings: RenderSettings { cam: Rect::from(-20, -19, 19, 20), dim: 1080, gap: 2 }
        }
    );

    app_move_model(&mut model, CartesianP::from(20, 20));
    assert_eq!(
        model.universe,
        Universe { age: 2, value: block.value.clone() }
    );

    app_toggle_by_point(&mut model, CartesianP::from(0, 0));
    assert_eq!(
        model.universe,
        Universe {
            age: 2,
            value: vec![
                CartesianP::from(-1, 1),
                CartesianP::from(0, 1),
                CartesianP::from(-1, 0),
            ],
        }
    );
}

#[test]
fn test_fps_to_mili() {
    assert_eq!(fps_to_mili(4), 250);
    assert_eq!(fps_to_mili(60), 16);
    assert_eq!(fps_to_mili(1000), 1);
}

#[test]
fn test_events_are_queued_and_drained() {
    let mut model = Model::default();
    assert_eq!(take_events(&mut model), Vec::<Prop>::new());
    app_pause(&mut model);
    app_set_gap(&mut model, 1);
    assert_eq!(take_events(&mut model), vec![Prop::Status, Prop::Gap]);
    assert_eq!(take_events(&mut model), Vec::<Prop>::new());
    on_change(&mut model, Prop::Cam);
    assert_eq!(take_events(&mut model), vec![Prop::Cam]);
}

#[test]
fn test_build_presets() {
    let presets = build_presets();
    let ids: Vec<&str> = presets.iter().map(|p| p.id.as_str()).collect();
    assert_eq!(ids, vec!["block", "beehive", "blinker", "toad", "r_pentomino"]);
}

#[test]
fn test_build_preset_option_groups() {
    let groups = build_preset_option_groups();
    assert_eq!(groups.len(), 3);
    assert_eq!(groups[0].label, "Still life");
    assert_eq!(groups[0].value, "still_life");
    assert_eq!(groups[0].options.len(), 2);
    assert_eq!(groups[0].options[0].label, "Block");
    assert_eq!(groups[0].options[0].value, "block");
    assert_eq!(groups[1].label, "Oscillators");
    assert_eq!(groups[1].options[1].value, "toad");
    assert_eq!(groups[2].label, "Methuselahs");
    assert_eq!(groups[2].options[0].value, "r_pentomino");
}

#[test]
fn test_get_preset_lookup() {
    assert!(get_preset(&String::from("nonsense")).is_none());
    let blinker = get_preset(&String::from("blinker")).unwrap();
    assert_eq!(
        blinker,
        Universe::from(vec![
            CartesianP::from(0, -1),
            CartesianP::from(0, 0),
            CartesianP::from(0, 1),
        ])
    );
}

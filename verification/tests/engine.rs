use ui_batch::rect::Rect;
use ui_batch::ui::{UIDrawGroup, UserInterface, UiError};

fn rect(min_x: i32, min_y: i32, max_x: i32, max_y: i32) -> Rect {
    Rect { min_x, min_y, max_x, max_y }
}

fn group_counts(ui: &UserInterface) -> Vec<(u32, u32)> {
    ui.draw_groups
        .iter()
        .map(|g| match g {
            UIDrawGroup::Texture(t) => (t.cursor_index, t.index_count),
        })
        .collect()
}

#[test]
fn prepare_resets_everything() {
    let mut ui = UserInterface::new();
    ui.cmd_prepare();
    ui.cmd_set_crop(Some(rect(1, 2, 3, 4)));
    for i in 0..5u64 {
        ui.cmd_draw_texture(i, &rect(0, 0, 1, 1), &rect(0, 0, 10, 10), 0xFF00FF00)
            .unwrap();
    }
    assert!(ui.draw_groups.len() > 0);
    assert_eq!(ui.textures.len(), 5);
    ui.cmd_prepare();
    assert_eq!(ui.draw_groups.len(), 0);
    assert_eq!(ui.textures.len(), 0);
    assert_eq!(ui.vertex_arena.cursor, 0);
    assert_eq!(ui.index_arena.cursor, 0);
    assert_eq!(ui.crop, None);
    assert!(ui.ready);
}

#[test]
fn consecutive_draws_merge_into_one_group() {
    let mut ui = UserInterface::new();
    ui.cmd_prepare();
    let n = 5u32;
    for i in 0..n {
        ui.cmd_draw_texture(
            u64::from(i),
            &rect(0, 0, 1, 1),
            &rect(i as i32 * 10, 0, i as i32 * 10 + 8, 8),
            0xFFFFFFFF,
        )
        .unwrap();
    }
    let counts = group_counts(&ui);
    assert_eq!(counts.len(), 1);
    assert_eq!(counts[0], (4 * n, 6 * n));
}

#[test]
fn crop_changes_split_groups_in_call_order() {
    let mut ui = UserInterface::new();
    ui.cmd_prepare();
    let a = rect(0, 0, 20, 20);
    let b = rect(5, 5, 25, 25);
    ui.cmd_draw_texture(1, &rect(0, 0, 1, 1), &rect(0, 0, 10, 10), 0).unwrap();
    ui.cmd_set_crop(Some(a));
    ui.cmd_draw_texture(1, &rect(0, 0, 1, 1), &rect(0, 0, 10, 10), 0).unwrap();
    ui.cmd_set_crop(Some(b));
    ui.cmd_draw_texture(1, &rect(0, 0, 1, 1), &rect(0, 0, 10, 10), 0).unwrap();
    let crops: Vec<Option<Rect>> = ui
        .draw_groups
        .iter()
        .map(|g| g.get_scissor_rect())
        .collect();
    assert_eq!(crops, vec![None, Some(a), Some(b)]);
    assert_eq!(group_counts(&ui), vec![(4, 6), (4, 6), (4, 6)]);
}

#[test]
fn setting_the_same_crop_does_not_split() {
    let mut ui = UserInterface::new();
    ui.cmd_prepare();
    let a = rect(0, 0, 20, 20);
    ui.cmd_set_crop(Some(a));
    ui.cmd_draw_texture(1, &rect(0, 0, 1, 1), &rect(0, 0, 10, 10), 0).unwrap();
    ui.cmd_set_crop(Some(a));
    ui.cmd_draw_texture(1, &rect(0, 0, 1, 1), &rect(0, 0, 10, 10), 0).unwrap();
    assert_eq!(ui.draw_groups.len(), 1);
}

#[test]
fn indices_stay_local_to_the_group() {
    let mut ui = UserInterface::new();
    ui.cmd_prepare();
    for _ in 0..3 {
        ui.cmd_draw_texture(1, &rect(0, 0, 1, 1), &rect(0, 0, 10, 10), 0).unwrap();
    }
    let UIDrawGroup::Texture(group) = &ui.draw_groups[0];
    let quads = group.cursor_index / 4;
    assert_eq!(quads, 3);
    for &ix in group.index_shadow_data.iter() {
        assert!(ix < 4 * quads);
    }
    assert_eq!(
        group.index_shadow_data,
        vec![0, 1, 2, 0, 2, 3, 4, 5, 6, 4, 6, 7, 8, 9, 10, 8, 10, 11]
    );
}

#[test]
fn growth_keeps_old_groups_on_the_old_buffer() {
    let mut ui = UserInterface::new();
    ui.cmd_prepare();
    // the first vertex buffer holds 1024 / 112 = 9 quads
    for _ in 0..9 {
        ui.cmd_draw_texture(1, &rect(0, 0, 1, 1), &rect(0, 0, 10, 10), 0).unwrap();
    }
    assert_eq!(ui.draw_groups.len(), 1);
    let first_generation = match &ui.draw_groups[0] {
        UIDrawGroup::Texture(t) => t.vertex_buffer.generation,
    };
    // the tenth quad does not fit: the vertex arena grows
    ui.cmd_draw_texture(1, &rect(0, 0, 1, 1), &rect(0, 0, 10, 10), 0).unwrap();
    assert_eq!(ui.draw_groups.len(), 2);
    let UIDrawGroup::Texture(old_group) = &ui.draw_groups[0];
    let UIDrawGroup::Texture(new_group) = &ui.draw_groups[1];
    assert_eq!(old_group.vertex_buffer.generation, first_generation);
    assert_ne!(new_group.vertex_buffer.generation, first_generation);
    assert_eq!(new_group.vertex_offset_start, 0);
    assert_eq!(old_group.vertex_buffer.capacity, 1024);
    assert_eq!(new_group.vertex_buffer.capacity, 2048);
}

#[test]
fn texture_resolution_is_idempotent_and_baked_per_vertex() {
    let mut ui = UserInterface::new();
    ui.cmd_prepare();
    ui.cmd_draw_texture(7, &rect(0, 0, 1, 1), &rect(0, 0, 10, 10), 0).unwrap();
    ui.cmd_draw_texture(9, &rect(0, 0, 1, 1), &rect(0, 0, 10, 10), 0).unwrap();
    ui.cmd_draw_texture(7, &rect(0, 0, 1, 1), &rect(0, 0, 10, 10), 0).unwrap();
    // texture identity is not part of the merge key
    assert_eq!(ui.draw_groups.len(), 1);
    // the same identity resolves to the same slot both times
    assert_eq!(ui.textures.len(), 2);
    assert_eq!(ui.textures.get(0), 7);
    assert_eq!(ui.textures.get(1), 9);
    let UIDrawGroup::Texture(group) = &ui.draw_groups[0];
    let slots: Vec<u32> = group.vertex_shadow_data.iter().map(|v| v.texture_index).collect();
    assert_eq!(slots, vec![0, 0, 0, 0, 1, 1, 1, 1, 0, 0, 0, 0]);
}

#[test]
fn texture_table_overflow_reports_resource_exhausted() {
    let mut ui = UserInterface::new();
    ui.cmd_prepare();
    for i in 0..32u64 {
        ui.cmd_draw_texture(i, &rect(0, 0, 1, 1), &rect(0, 0, 10, 10), 0).unwrap();
    }
    let r = ui.cmd_draw_texture(99, &rect(0, 0, 1, 1), &rect(0, 0, 10, 10), 0);
    assert_eq!(r, Err(UiError::ResourceExhausted));
    // a texture already seen this frame still draws
    assert_eq!(ui.cmd_draw_texture(5, &rect(0, 0, 1, 1), &rect(0, 0, 10, 10), 0), Ok(()));
    // the table did not grow past its capacity
    assert_eq!(ui.textures.len(), 32);
}

#[test]
fn vertices_carry_corners_and_swapped_tint() {
    let mut ui = UserInterface::new();
    ui.cmd_prepare();
    ui.cmd_draw_texture(1, &rect(0, 0, 1, 1), &rect(10, 20, 30, 40), 0xAA112233)
        .unwrap();
    let UIDrawGroup::Texture(group) = &ui.draw_groups[0];
    let v = &group.vertex_shadow_data;
    assert_eq!(v.len(), 4);
    assert_eq!((v[0].x, v[0].y, v[0].u, v[0].v), (10, 20, 0, 0));
    assert_eq!((v[1].x, v[1].y, v[1].u, v[1].v), (30, 20, 1, 0));
    assert_eq!((v[2].x, v[2].y, v[2].u, v[2].v), (30, 40, 1, 1));
    assert_eq!((v[3].x, v[3].y, v[3].u, v[3].v), (10, 40, 0, 1));
    // 0xAA112233 reversed byte-wise is 0x332211AA
    for vertex in v.iter() {
        assert_eq!(vertex.color, 0x332211AA);
        assert_eq!(vertex.sampler_index, 0);
    }
}

#[test]
fn two_draws_one_group_dispatch() {
    let mut ui = UserInterface::new();
    ui.cmd_prepare();
    ui.cmd_draw_texture(1, &rect(0, 0, 1, 1), &rect(10, 10, 50, 50), 0xFFFFFFFF)
        .unwrap();
    ui.cmd_draw_texture(1, &rect(0, 0, 1, 1), &rect(60, 10, 100, 50), 0xFFFFFFFF)
        .unwrap();
    let plan = ui.cmd_dispatch(&rect(0, 0, 800, 600));
    assert_eq!(plan.commands.len(), 1);
    assert_eq!(plan.commands[0].index_count, 12);
    assert!(!ui.ready);
}

#[test]
fn crop_between_draws_scissors_the_second_group() {
    let mut ui = UserInterface::new();
    ui.cmd_prepare();
    ui.cmd_draw_texture(1, &rect(0, 0, 1, 1), &rect(10, 10, 50, 50), 0xFFFFFFFF)
        .unwrap();
    ui.cmd_set_crop(Some(rect(0, 0, 40, 40)));
    ui.cmd_draw_texture(1, &rect(0, 0, 1, 1), &rect(60, 10, 100, 50), 0xFFFFFFFF)
        .unwrap();
    let plan = ui.cmd_dispatch(&rect(0, 0, 800, 600));
    assert_eq!(plan.commands.len(), 2);
    let first = &plan.commands[0].scissor;
    assert_eq!((first.x, first.y, first.width, first.height), (0, 0, 800, 600));
    let second = &plan.commands[1].scissor;
    assert_eq!((second.x, second.y, second.width, second.height), (0, 0, 40, 40));
}

#[test]
fn dispatch_pads_texture_slots_with_the_dummy() {
    let mut ui = UserInterface::new();
    ui.cmd_prepare();
    ui.cmd_draw_texture(7, &rect(0, 0, 1, 1), &rect(0, 0, 10, 10), 0).unwrap();
    ui.cmd_draw_texture(9, &rect(0, 0, 1, 1), &rect(0, 0, 10, 10), 0).unwrap();
    let plan = ui.cmd_dispatch(&rect(0, 0, 100, 100));
    assert_eq!(plan.texture_slots.len(), 32);
    assert_eq!(plan.texture_slots[0], Some(7));
    assert_eq!(plan.texture_slots[1], Some(9));
    for slot in plan.texture_slots.iter().skip(2) {
        assert_eq!(*slot, None);
    }
    assert_eq!(plan.viewport, rect(0, 0, 100, 100));
}

#[test]
fn dispatch_copies_group_data_into_the_plan() {
    let mut ui = UserInterface::new();
    ui.cmd_prepare();
    ui.cmd_draw_texture(3, &rect(0, 0, 2, 2), &rect(1, 2, 3, 4), 0x01020304).unwrap();
    let plan = ui.cmd_dispatch(&rect(0, 0, 64, 64));
    let UIDrawGroup::Texture(group) = &ui.draw_groups[0];
    assert_eq!(plan.commands[0].vertex_data, group.vertex_shadow_data);
    assert_eq!(plan.commands[0].index_data, group.index_shadow_data);
    assert_eq!(plan.commands[0].vertex_buffer, group.vertex_buffer);
    assert_eq!(plan.commands[0].vertex_offset_start, group.vertex_offset_start);
    assert_eq!(plan.commands[0].index_offset_end, group.index_offset_end);
}

#[test]
fn negative_crop_corners_clamp_to_zero() {
    let mut ui = UserInterface::new();
    ui.cmd_prepare();
    ui.cmd_set_crop(Some(rect(-5, -7, 40, 40)));
    ui.cmd_draw_texture(1, &rect(0, 0, 1, 1), &rect(0, 0, 10, 10), 0).unwrap();
    let plan = ui.cmd_dispatch(&rect(0, 0, 800, 600));
    let s = &plan.commands[0].scissor;
    assert_eq!((s.x, s.y, s.width, s.height), (0, 0, 45, 47));
}

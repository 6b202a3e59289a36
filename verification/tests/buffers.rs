use bevy_light_2d::math::{HalfSize, LinearRgba, Vec2, ONE};
use bevy_light_2d::render::empty_buffer::{prepare_empty_buffer, EmptyBuffer, EMPTY_BUFFER};
use bevy_light_2d::render::extract::{ExtractedLightOccluder2d, ExtractedPointLight2d};
use bevy_light_2d::render::light_map::{
    prepare_point_light_count, PointLightMeta, PointLightMetaBuffer,
};
use bevy_light_2d::render::prepare::{
    prepare_point_lights, GpuPointLights, GpuPointLightsStorage, GpuPointLightsUniform,
    MAX_UNIFORM_POINT_LIGHTS,
};
use bevy_light_2d::render::render_resource::{
    ArrayBuffer, BindingResource, BufferDescriptor, BufferUsages, DeviceLimits,
};
use bevy_light_2d::render::sdf::{prepare_occluder_meta, OccluderMeta, OccluderMetaBuffer};

const WITHOUT_STORAGE: DeviceLimits = DeviceLimits { max_storage_buffers_per_shader_stage: 0 };
const WITH_STORAGE: DeviceLimits = DeviceLimits { max_storage_buffers_per_shader_stage: 8 };

fn lights(n: usize) -> Vec<ExtractedPointLight2d> {
    (0..n)
        .map(|i| ExtractedPointLight2d {
            transform: Vec2 { x: i as i32, y: -(i as i32) },
            radius: ONE + i as u32,
            color: LinearRgba::white(),
            intensity: ONE,
            falloff: 0,
            cast_shadows: (i % 2) as u32,
        })
        .collect()
}

fn contents(buffer: &GpuPointLights) -> Vec<ExtractedPointLight2d> {
    (0..buffer.len()).map(|i| buffer.get(i).unwrap()).collect()
}

#[test]
fn the_layout_follows_the_device() {
    assert_eq!(WITHOUT_STORAGE.array_buffer(), ArrayBuffer::Uniform);
    assert_eq!(WITH_STORAGE.array_buffer(), ArrayBuffer::Storage);
    assert_eq!(
        DeviceLimits { max_storage_buffers_per_shader_stage: 1 }.array_buffer(),
        ArrayBuffer::Storage
    );
    assert!(matches!(GpuPointLights::new(WITHOUT_STORAGE), GpuPointLights::Uniform(_)));
    assert!(matches!(GpuPointLights::new(WITH_STORAGE), GpuPointLights::Storage(_)));
}

#[test]
fn a_new_buffer_is_empty_and_has_no_binding() {
    for limits in [WITHOUT_STORAGE, WITH_STORAGE] {
        let buffer = GpuPointLights::new(limits);
        assert_eq!(buffer.len(), 0);
        assert_eq!(buffer.get(0), None);
        assert_eq!(buffer.binding(), None);
    }
    assert_eq!(
        GpuPointLights::Uniform(GpuPointLightsUniform::default()),
        GpuPointLights::new(WITHOUT_STORAGE)
    );
    assert_eq!(GpuPointLightsStorage::default().data, Vec::new());
}

#[test]
fn the_storage_layout_holds_every_light() {
    let mut buffer = GpuPointLights::new(WITH_STORAGE);
    buffer.set(lights(300));
    assert_eq!(buffer.len(), 300);
    assert_eq!(contents(&buffer), lights(300));
    assert_eq!(buffer.get(300), None);
    assert_eq!(buffer.binding(), Some(BindingResource::PointLights));
}

#[test]
fn the_uniform_layout_drops_what_does_not_fit() {
    assert_eq!(MAX_UNIFORM_POINT_LIGHTS, 256);
    let mut buffer = GpuPointLights::new(WITHOUT_STORAGE);
    buffer.set(lights(300));
    assert_eq!(buffer.len(), 256);
    assert_eq!(contents(&buffer), lights(300)[..256].to_vec());
    assert_eq!(buffer.get(255), Some(lights(300)[255]));
    assert_eq!(buffer.get(256), None);
    assert_eq!(buffer.binding(), Some(BindingResource::PointLights));
}

#[test]
fn the_uniform_layout_holds_exactly_its_capacity() {
    let mut buffer = GpuPointLights::new(WITHOUT_STORAGE);
    buffer.set(lights(256));
    assert_eq!(contents(&buffer), lights(256));
    buffer.set(lights(255));
    assert_eq!(contents(&buffer), lights(255));
}

#[test]
fn nothing_of_the_frame_before_is_left() {
    for limits in [WITHOUT_STORAGE, WITH_STORAGE] {
        let mut buffer = GpuPointLights::new(limits);
        buffer.set(lights(40));
        buffer.set(lights(3));
        assert_eq!(contents(&buffer), lights(3));
        assert_eq!(buffer.get(3), None);
        // A buffer that was set once only looks the same.
        let mut fresh = GpuPointLights::new(limits);
        fresh.set(lights(3));
        assert_eq!(buffer, fresh);
        buffer.set(Vec::new());
        assert_eq!(buffer.len(), 0);
        assert_eq!(buffer.binding(), None);
        assert_eq!(buffer, GpuPointLights::new(limits));
    }
}

#[test]
fn prepare_point_lights_replaces_the_buffer() {
    for limits in [WITHOUT_STORAGE, WITH_STORAGE] {
        let mut buffer = GpuPointLights::new(limits);
        let first = lights(5);
        prepare_point_lights(&first, &mut buffer);
        assert_eq!(contents(&buffer), first);
        let second = lights(2);
        prepare_point_lights(&second, &mut buffer);
        assert_eq!(contents(&buffer), second);
    }
}

#[test]
fn the_empty_buffer_has_no_binding_until_it_is_filled() {
    let mut empty_buffer = EmptyBuffer::default();
    assert_eq!(empty_buffer.buffer, None);
    assert_eq!(empty_buffer.binding(), None);
    empty_buffer.fill_buffer(WITH_STORAGE);
    assert_eq!(empty_buffer.binding(), Some(BindingResource::EmptyBuffer));
}

#[test]
fn the_empty_buffer_holds_one_record_or_one_uniform_binding() {
    let usage = BufferUsages { copy_dst: true, storage: true, uniform: true };
    let mut empty_buffer = EmptyBuffer::default();
    empty_buffer.fill_buffer(WITH_STORAGE);
    assert_eq!(
        empty_buffer.buffer,
        Some(BufferDescriptor { label: "empty-buffer", size: 64, usage, mapped_at_creation: false })
    );
    let mut empty_buffer = EmptyBuffer::default();
    empty_buffer.fill_buffer(WITHOUT_STORAGE);
    assert_eq!(
        empty_buffer.buffer,
        Some(BufferDescriptor {
            label: EMPTY_BUFFER,
            size: 4096,
            usage,
            mapped_at_creation: false
        })
    );
}

#[test]
fn the_empty_buffer_is_created_once() {
    let mut empty_buffer = EmptyBuffer::default();
    prepare_empty_buffer(&mut empty_buffer, WITH_STORAGE);
    let first = empty_buffer;
    prepare_empty_buffer(&mut empty_buffer, WITHOUT_STORAGE);
    assert_eq!(empty_buffer, first);
    assert_eq!(empty_buffer.buffer.unwrap().size, 64);
}

#[test]
fn the_point_light_count_is_the_number_of_lights() {
    let mut buffer = PointLightMetaBuffer::default();
    assert_eq!(buffer.buffer, PointLightMeta::new(0));
    prepare_point_light_count(&lights(7), &mut buffer);
    assert_eq!(buffer.buffer.count, 7);
    prepare_point_light_count(&Vec::new(), &mut buffer);
    assert_eq!(buffer.buffer, PointLightMeta::default());
    assert_eq!(PointLightMeta::new(42).count, 42);
}

#[test]
fn the_occluder_count_is_the_number_of_occluders() {
    let occluder = ExtractedLightOccluder2d {
        half_size: HalfSize { x: 1, y: 1 },
        center: Vec2 { x: 0, y: 0 },
    };
    let mut buffer = OccluderMetaBuffer::default();
    assert_eq!(buffer.buffer, OccluderMeta::new(0));
    prepare_occluder_meta(&vec![occluder; 3], &mut buffer);
    assert_eq!(buffer.buffer.count, 3);
    prepare_occluder_meta(&Vec::new(), &mut buffer);
    assert_eq!(buffer.buffer, OccluderMeta::default());
    assert_eq!(OccluderMeta::new(9).count, 9);
}

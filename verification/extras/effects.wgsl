struct Params {
    width: u32,
    height: u32,
    _pad0: u32,
    _pad1: u32,
    saturation: f32,
    contrast: f32,
    brightness: f32,
    effect_mix: f32,
};

@group(0) @binding(0) var src_tex: texture_2d<f32>;
@group(0) @binding(1) var src_sampler: sampler;
@group(0) @binding(2) var dst_tex: texture_storage_2d<rgba8unorm, write>;
@group(0) @binding(3) var<uniform> params: Params;

fn to_luma(c: vec3<f32>) -> f32 {
    return dot(c, vec3<f32>(0.2126, 0.7152, 0.0722));
}

@compute @workgroup_size(8, 8, 1)
fn main(@builtin(global_invocation_id) gid: vec3<u32>) {
    if (gid.x >= params.width || gid.y >= params.height) {
        return;
    }

    let uv = (vec2<f32>(f32(gid.x), f32(gid.y)) + vec2<f32>(0.5, 0.5))
        / vec2<f32>(f32(params.width), f32(params.height));

    let src = textureSampleLevel(src_tex, src_sampler, uv, 0.0);
    let l = to_luma(src.rgb);
    let sat_col = mix(vec3<f32>(l, l, l), src.rgb, params.saturation);
    let ctr_col = (sat_col - vec3<f32>(0.5, 0.5, 0.5)) * params.contrast + vec3<f32>(0.5, 0.5, 0.5);
    let brt_col = ctr_col * params.brightness;

    let cool_tone = vec3<f32>(brt_col.r * 0.98, brt_col.g * 1.00, brt_col.b * 1.03);
    let out_rgb = mix(src.rgb, cool_tone, params.effect_mix);
    textureStore(dst_tex, vec2<i32>(i32(gid.x), i32(gid.y)), vec4<f32>(clamp(out_rgb, vec3<f32>(0.0), vec3<f32>(1.0)), src.a));
}

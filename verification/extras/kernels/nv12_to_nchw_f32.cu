// Samples the two planes of NV12 images bilinearly, turns the colors into red,
// green and blue and normalizes them.

__device__ float swm_clamp(float value, float low, float high) {
    return fminf(fmaxf(value, low), high);
}

__device__ float swm_sample_plane(
    const unsigned char* __restrict__ plane,
    unsigned int b,
    unsigned int h,
    unsigned int w,
    unsigned int channels,
    unsigned int channel,
    float src_y,
    float src_x
) {
    src_y = swm_clamp(src_y, 0.0f, (float)(h - 1u));
    src_x = swm_clamp(src_x, 0.0f, (float)(w - 1u));
    unsigned int y0 = (unsigned int)floorf(src_y);
    unsigned int x0 = (unsigned int)floorf(src_x);
    unsigned int y1 = y0 + 1u < h ? y0 + 1u : y0;
    unsigned int x1 = x0 + 1u < w ? x0 + 1u : x0;
    float wy = src_y - (float)y0;
    float wx = src_x - (float)x0;

    unsigned int base00 = (((b * h + y0) * w + x0) * channels + channel);
    unsigned int base01 = (((b * h + y0) * w + x1) * channels + channel);
    unsigned int base10 = (((b * h + y1) * w + x0) * channels + channel);
    unsigned int base11 = (((b * h + y1) * w + x1) * channels + channel);

    float v00 = (float)plane[base00];
    float v01 = (float)plane[base01];
    float v10 = (float)plane[base10];
    float v11 = (float)plane[base11];
    float top = v00 + (v01 - v00) * wx;
    float bottom = v10 + (v11 - v10) * wx;
    return top + (bottom - top) * wy;
}

extern "C" __global__ void swm_nv12_to_nchw_f32(
    const unsigned char* __restrict__ y_plane,
    const unsigned char* __restrict__ uv_plane,
    float* __restrict__ output,
    unsigned int pixel_count,
    unsigned int batch,
    unsigned int in_h,
    unsigned int in_w,
    unsigned int out_h,
    unsigned int out_w,
    unsigned int color_space,
    unsigned int history_len,
    unsigned int history_slot,
    float mean0,
    float mean1,
    float mean2,
    float std0,
    float std1,
    float std2
) {
    unsigned int idx = blockIdx.x * blockDim.x + threadIdx.x;
    if (idx >= pixel_count) {
        return;
    }

    unsigned int x = idx % out_w;
    unsigned int tmp = idx / out_w;
    unsigned int y = tmp % out_h;
    unsigned int b = tmp / out_h;
    if (b >= batch) {
        return;
    }

    float src_y = ((float)y + 0.5f) * ((float)in_h / (float)out_h) - 0.5f;
    float src_x = ((float)x + 0.5f) * ((float)in_w / (float)out_w) - 0.5f;
    float y_value = swm_sample_plane(y_plane, b, in_h, in_w, 1u, 0u, src_y, src_x);
    float u_value = swm_sample_plane(
        uv_plane,
        b,
        in_h / 2u,
        in_w / 2u,
        2u,
        0u,
        src_y * 0.5f,
        src_x * 0.5f
    ) - 128.0f;
    float v_value = swm_sample_plane(
        uv_plane,
        b,
        in_h / 2u,
        in_w / 2u,
        2u,
        1u,
        src_y * 0.5f,
        src_x * 0.5f
    ) - 128.0f;

    float r;
    float g;
    float blue;
    if (color_space == 0u) {
        float yy = fmaxf(y_value - 16.0f, 0.0f) * 1.16438356f;
        r = yy + 1.59602678f * v_value;
        g = yy - 0.39176229f * u_value - 0.81296765f * v_value;
        blue = yy + 2.01723214f * u_value;
    } else if (color_space == 1u) {
        float yy = fmaxf(y_value - 16.0f, 0.0f) * 1.16438356f;
        r = yy + 1.79274107f * v_value;
        g = yy - 0.21324861f * u_value - 0.53290933f * v_value;
        blue = yy + 2.11240179f * u_value;
    } else if (color_space == 2u) {
        r = y_value + 1.402f * v_value;
        g = y_value - 0.344136f * u_value - 0.714136f * v_value;
        blue = y_value + 1.772f * u_value;
    } else {
        r = y_value + 1.5748f * v_value;
        g = y_value - 0.187324f * u_value - 0.468124f * v_value;
        blue = y_value + 1.8556f * u_value;
    }

    float values[3] = {
        swm_clamp(r, 0.0f, 255.0f) * 0.00392156862745098f,
        swm_clamp(g, 0.0f, 255.0f) * 0.00392156862745098f,
        swm_clamp(blue, 0.0f, 255.0f) * 0.00392156862745098f,
    };
    float means[3] = { mean0, mean1, mean2 };
    float stds[3] = { std0, std1, std2 };

    for (unsigned int c = 0u; c < 3u; c++) {
        float normalized = (values[c] - means[c]) / stds[c];
        unsigned int out_idx;
        if (history_len == 0u) {
            out_idx = (((b * 3u + c) * out_h + y) * out_w + x);
        } else {
            out_idx = ((((b * history_len + history_slot) * 3u + c) * out_h + y) * out_w + x);
        }
        output[out_idx] = normalized;
    }
}

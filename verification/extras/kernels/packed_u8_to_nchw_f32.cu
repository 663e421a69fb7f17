// Resizes packed 8-bit images bilinearly, puts their channels in the order
// red, green, blue and normalizes them.

extern "C" __global__ void swm_packed_u8_to_nchw_f32(
    const unsigned char* __restrict__ input,
    float* __restrict__ output,
    unsigned int elem_count,
    unsigned int batch,
    unsigned int in_h,
    unsigned int in_w,
    unsigned int channels,
    unsigned int out_h,
    unsigned int out_w,
    unsigned int format,
    unsigned int history_len,
    unsigned int history_slot,
    float mean0,
    float mean1,
    float mean2,
    float std0,
    float std1,
    float std2
) {
    unsigned int idx = blockIdx.x * blockDim.x + threadIdx.x;
    if (idx >= elem_count) {
        return;
    }

    unsigned int x = idx % out_w;
    unsigned int tmp = idx / out_w;
    unsigned int y = tmp % out_h;
    tmp /= out_h;
    unsigned int c = tmp % 3;
    unsigned int b = tmp / 3;
    if (b >= batch) {
        return;
    }

    float src_y = ((float)y + 0.5f) * ((float)in_h / (float)out_h) - 0.5f;
    float src_x = ((float)x + 0.5f) * ((float)in_w / (float)out_w) - 0.5f;
    if (src_y < 0.0f) {
        src_y = 0.0f;
    }
    if (src_x < 0.0f) {
        src_x = 0.0f;
    }

    unsigned int y0 = (unsigned int)floorf(src_y);
    unsigned int x0 = (unsigned int)floorf(src_x);
    unsigned int y1 = y0 + 1 < in_h ? y0 + 1 : y0;
    unsigned int x1 = x0 + 1 < in_w ? x0 + 1 : x0;
    float wy = src_y - (float)y0;
    float wx = src_x - (float)x0;

    unsigned int src_c = c;
    if (format == 1u || format == 3u) {
        src_c = 2u - c;
    }

    unsigned int base00 = (((b * in_h + y0) * in_w + x0) * channels + src_c);
    unsigned int base01 = (((b * in_h + y0) * in_w + x1) * channels + src_c);
    unsigned int base10 = (((b * in_h + y1) * in_w + x0) * channels + src_c);
    unsigned int base11 = (((b * in_h + y1) * in_w + x1) * channels + src_c);

    float v00 = (float)input[base00];
    float v01 = (float)input[base01];
    float v10 = (float)input[base10];
    float v11 = (float)input[base11];
    float top = v00 + (v01 - v00) * wx;
    float bottom = v10 + (v11 - v10) * wx;
    float value = (top + (bottom - top) * wy) * 0.00392156862745098f;

    float mean = c == 0u ? mean0 : (c == 1u ? mean1 : mean2);
    float std = c == 0u ? std0 : (c == 1u ? std1 : std2);
    float normalized = (value - mean) / std;
    if (history_len == 0u) {
        output[idx] = normalized;
    } else {
        unsigned int out_idx =
            ((((b * history_len + history_slot) * 3u + c) * out_h + y) * out_w + x);
        output[out_idx] = normalized;
    }
}

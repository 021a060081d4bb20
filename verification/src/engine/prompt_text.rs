//! Text of the filename-parsing prompt.

use vstd::prelude::*;
use crate::models::media::MediaType;
use crate::utils::text::push_str;

verus! {

/// Opening of the parsing prompt, up to the filename.
pub open spec fn prompt_head() -> Seq<char> {
    r#"你是一个视频文件名解析专家。请分析以下视频文件名，提取关键信息。

文件名: "#@
}

/// Text between the filename and the media-type hint.
pub open spec fn prompt_middle() -> Seq<char> {
    r#"
提示: "#@
}

/// Instructions that close the prompt.
pub open spec fn prompt_tail() -> Seq<char> {
    r#"

请提取以下信息并以JSON格式返回：
1. original_title: 原始标题（通常是英文）
2. title: 中文标题（如果有的话）
3. year: 发行年份（4位数字）
4. season: 季数（仅电视剧，如S01表示第1季）
5. episode: 集数（仅电视剧，如E05表示第5集）
6. confidence: 你对解析结果的置信度（0.0到1.0之间的小数）

注意事项：
- 忽略分辨率（如1080p、4K、2160p）、编码格式（如x265、HEVC）、音频格式（如DTS、AAC）等技术信息
- 忽略发布组名称（通常在方括号或末尾）
- 如果文件名中包含中英文混合，请分别提取
- 如果无法确定某个字段，返回null
- **重要**: 年份必须是文件名中明确出现的4位数字(1900-2030)，不要猜测！如果文件名中没有年份，返回null
- 例如："动物农场.mp4"没有年份，应返回null；"雏菊 导演剪辑版 2006.mp4"年份是2006
- **重要**: 续集编号（如2、3、II、III）是标题的一部分！例如"刺杀小说家2"的标题是"刺杀小说家2"而不是"刺杀小说家"
- **重要**: 不要把紧跟在标题后面的数字当作分辨率。例如"刺杀小说家2.4k.mp4"中，"2"是续集编号，"4k"才是分辨率
- 常见续集模式：标题2、标题3、标题II、标题III、标题:副标题
- **重要**: 版本信息不是标题的一部分！如"导演剪辑版"、"加长版"、"未删减版"、"特效版"、"IMAX版"、"3D版"等都不应包含在标题中
- 例如："雏菊 导演剪辑版 2006.mp4" 的标题是"雏菊"，年份是2006

只返回JSON对象，不要包含其他文字：
{"original_title": "...", "title": "...", "year": ..., "season": ..., "episode": ..., "confidence": ...}"#@
}

pub open spec fn type_hint(media_type: MediaType) -> Seq<char> {
    match media_type {
        MediaType::Movies => "这是一个电影文件"@,
        MediaType::TvShows => "这是一个电视剧/剧集文件"@,
    }
}

/// The prompt that asks the model to parse `filename`.
pub open spec fn prompt_for(filename: Seq<char>, media_type: MediaType) -> Seq<char> {
    prompt_head() + filename + prompt_middle() + type_hint(media_type) + prompt_tail()
}

pub(crate) fn push_prompt_head(v: &mut Vec<char>)
    ensures
        final(v)@ == old(v)@ + prompt_head(),
{
    push_str(v, r#"你是一个视频文件名解析专家。请分析以下视频文件名，提取关键信息。

文件名: "#);
}

pub(crate) fn push_prompt_middle(v: &mut Vec<char>)
    ensures
        final(v)@ == old(v)@ + prompt_middle(),
{
    push_str(v, r#"
提示: "#);
}

pub(crate) fn push_prompt_tail(v: &mut Vec<char>)
    ensures
        final(v)@ == old(v)@ + prompt_tail(),
{
    push_str(v, r#"

请提取以下信息并以JSON格式返回：
1. original_title: 原始标题（通常是英文）
2. title: 中文标题（如果有的话）
3. year: 发行年份（4位数字）
4. season: 季数（仅电视剧，如S01表示第1季）
5. episode: 集数（仅电视剧，如E05表示第5集）
6. confidence: 你对解析结果的置信度（0.0到1.0之间的小数）

注意事项：
- 忽略分辨率（如1080p、4K、2160p）、编码格式（如x265、HEVC）、音频格式（如DTS、AAC）等技术信息
- 忽略发布组名称（通常在方括号或末尾）
- 如果文件名中包含中英文混合，请分别提取
- 如果无法确定某个字段，返回null
- **重要**: 年份必须是文件名中明确出现的4位数字(1900-2030)，不要猜测！如果文件名中没有年份，返回null
- 例如："动物农场.mp4"没有年份，应返回null；"雏菊 导演剪辑版 2006.mp4"年份是2006
- **重要**: 续集编号（如2、3、II、III）是标题的一部分！例如"刺杀小说家2"的标题是"刺杀小说家2"而不是"刺杀小说家"
- **重要**: 不要把紧跟在标题后面的数字当作分辨率。例如"刺杀小说家2.4k.mp4"中，"2"是续集编号，"4k"才是分辨率
- 常见续集模式：标题2、标题3、标题II、标题III、标题:副标题
- **重要**: 版本信息不是标题的一部分！如"导演剪辑版"、"加长版"、"未删减版"、"特效版"、"IMAX版"、"3D版"等都不应包含在标题中
- 例如："雏菊 导演剪辑版 2006.mp4" 的标题是"雏菊"，年份是2006

只返回JSON对象，不要包含其他文字：
{"original_title": "...", "title": "...", "year": ..., "season": ..., "episode": ..., "confidence": ...}"#);
}

} // verus!

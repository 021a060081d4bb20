//! Chinese text utilities.

use vstd::prelude::*;
use crate::utils::text::{
    chars_of, is_whitespace, is_ws, seq_eq, str_lowercase, string_of, to_lower, trim, trim_chars,
};

verus! {

/// Normalized form of a title: trimmed, lowercased, with all white space removed.
pub open spec fn normalized(s: Seq<char>) -> Seq<char> {
    str_lowercase(trim(s)).filter(|c: char| !is_ws(c))
}

/// CJK ideograph blocks (Unified, Extension A, Compatibility, Extension B).
pub open spec fn is_chinese(c: char) -> bool {
    let u = c as u32;
    ||| 0x4E00 <= u <= 0x9FFF
    ||| 0x3400 <= u <= 0x4DBF
    ||| 0xF900 <= u <= 0xFAFF
    ||| 0x20000 <= u <= 0x2A6DF
}

/// The Simplified form of a Traditional Chinese character, for the common
/// characters of titles in the table below; any other character is kept.
pub open spec fn simplified(c: char) -> char {
    match c {
        '國' => '国',
        '們' => '们',
        '電' => '电',
        '愛' => '爱',
        '戰' => '战',
        '記' => '记',
        '話' => '话',
        '說' => '说',
        '夢' => '梦',
        '龍' => '龙',
        '鳳' => '凤',
        '華' => '华',
        '風' => '风',
        '雲' => '云',
        '門' => '门',
        '開' => '开',
        '關' => '关',
        '東' => '东',
        '車' => '车',
        '馬' => '马',
        '魚' => '鱼',
        '鳥' => '鸟',
        '島' => '岛',
        '葉' => '叶',
        '樂' => '乐',
        '書' => '书',
        '畫' => '画',
        '長' => '长',
        '時' => '时',
        '間' => '间',
        '無' => '无',
        '與' => '与',
        '為' => '为',
        '個' => '个',
        '來' => '来',
        '對' => '对',
        '會' => '会',
        '學' => '学',
        '這' => '这',
        '還' => '还',
        '進' => '进',
        '過' => '过',
        '運' => '运',
        '達' => '达',
        '遠' => '远',
        '遊' => '游',
        '邊' => '边',
        '圖' => '图',
        '園' => '园',
        '團' => '团',
        '場' => '场',
        '壞' => '坏',
        '聲' => '声',
        '處' => '处',
        '備' => '备',
        '傳' => '传',
        '僅' => '仅',
        '價' => '价',
        '億' => '亿',
        '兒' => '儿',
        '兩' => '两',
        '劇' => '剧',
        '劍' => '剑',
        '動' => '动',
        '勝' => '胜',
        '勞' => '劳',
        '區' => '区',
        '協' => '协',
        '單' => '单',
        '賣' => '卖',
        '歷' => '历',
        '參' => '参',
        '雙' => '双',
        '發' => '发',
        '變' => '变',
        '號' => '号',
        '嚇' => '吓',
        '喪' => '丧',
        '嚴' => '严',
        '後' => '后',
        '復' => '复',
        '戀' => '恋',
        '極' => '极',
        '樓' => '楼',
        '機' => '机',
        '殺' => '杀',
        '氣' => '气',
        '漢' => '汉',
        '滅' => '灭',
        '滿' => '满',
        '熱' => '热',
        '獄' => '狱',
        '獨' => '独',
        '獵' => '猎',
        '現' => '现',
        '環' => '环',
        '產' => '产',
        '當' => '当',
        '瘋' => '疯',
        '盜' => '盗',
        '眾' => '众',
        '確' => '确',
        '禮' => '礼',
        '紅' => '红',
        '純' => '纯',
        '級' => '级',
        '紀' => '纪',
        '約' => '约',
        '結' => '结',
        '絕' => '绝',
        '經' => '经',
        '綠' => '绿',
        '網' => '网',
        '緣' => '缘',
        '線' => '线',
        '練' => '练',
        '總' => '总',
        '織' => '织',
        '繼' => '继',
        '羅' => '罗',
        '義' => '义',
        '聖' => '圣',
        '聯' => '联',
        '聽' => '听',
        '職' => '职',
        '腦' => '脑',
        '興' => '兴',
        '舊' => '旧',
        '艦' => '舰',
        '藍' => '蓝',
        '藝' => '艺',
        '蘭' => '兰',
        '蟲' => '虫',
        '術' => '术',
        '衛' => '卫',
        '裝' => '装',
        '製' => '制',
        '親' => '亲',
        '覺' => '觉',
        '觀' => '观',
        '詩' => '诗',
        '誰' => '谁',
        '調' => '调',
        '談' => '谈',
        '請' => '请',
        '諜' => '谍',
        '證' => '证',
        '識' => '识',
        '護' => '护',
        '讀' => '读',
        '貓' => '猫',
        '貝' => '贝',
        '財' => '财',
        '貨' => '货',
        '賊' => '贼',
        '資' => '资',
        '質' => '质',
        '賽' => '赛',
        '贏' => '赢',
        '趕' => '赶',
        '軍' => '军',
        '輕' => '轻',
        '輪' => '轮',
        '轉' => '转',
        '農' => '农',
        '週' => '周',
        '醫' => '医',
        '釋' => '释',
        '鐵' => '铁',
        '鋼' => '钢',
        '錢' => '钱',
        '錯' => '错',
        '鏡' => '镜',
        '閃' => '闪',
        '闖' => '闯',
        '陽' => '阳',
        '陰' => '阴',
        '隊' => '队',
        '際' => '际',
        '險' => '险',
        '隱' => '隐',
        '雜' => '杂',
        '雞' => '鸡',
        '離' => '离',
        '難' => '难',
        '靈' => '灵',
        '響' => '响',
        '頂' => '顶',
        '頭' => '头',
        '顏' => '颜',
        '題' => '题',
        '類' => '类',
        '飛' => '飞',
        '飯' => '饭',
        '驚' => '惊',
        '體' => '体',
        '鬥' => '斗',
        '麗' => '丽',
        '黃' => '黄',
        '點' => '点',
        '黨' => '党',
        '齊' => '齐',
        '龜' => '龟',
        '帶' => '带',
        '師' => '师',
        '幾' => '几',
        '廣' => '广',
        '廳' => '厅',
        '張' => '张',
        '強' => '强',
        '彈' => '弹',
        '歸' => '归',
        '從' => '从',
        '憶' => '忆',
        '應' => '应',
        '懷' => '怀',
        '戲' => '戏',
        '擊' => '击',
        '據' => '据',
        '擁' => '拥',
        '敵' => '敌',
        '數' => '数',
        '斷' => '断',
        '曉' => '晓',
        '條' => '条',
        '業' => '业',
        '標' => '标',
        '樣' => '样',
        '權' => '权',
        '歡' => '欢',
        '歲' => '岁',
        '淚' => '泪',
        '潛' => '潜',
        '灣' => '湾',
        '燈' => '灯',
        '爺' => '爷',
        '牆' => '墙',
        '狀' => '状',
        '獅' => '狮',
        '獎' => '奖',
        '瑪' => '玛',
        '異' => '异',
        '療' => '疗',
        '盡' => '尽',
        '監' => '监',
        '碼' => '码',
        '視' => '视',
        '禍' => '祸',
        '種' => '种',
        '稱' => '称',
        '穩' => '稳',
        '筆' => '笔',
        '範' => '范',
        '簡' => '简',
        '紙' => '纸',
        '細' => '细',
        '終' => '终',
        '組' => '组',
        '給' => '给',
        '統' => '统',
        '絲' => '丝',
        '緊' => '紧',
        '編' => '编',
        '縣' => '县',
        '罰' => '罚',
        '習' => '习',
        '聞' => '闻',
        '膽' => '胆',
        '臉' => '脸',
        '臺' => '台',
        '蘋' => '苹',
        '蝦' => '虾',
        '襲' => '袭',
        '見' => '见',
        '規' => '规',
        '計' => '计',
        '設' => '设',
        '許' => '许',
        '訴' => '诉',
        '評' => '评',
        '試' => '试',
        '認' => '认',
        '語' => '语',
        '誤' => '误',
        '論' => '论',
        '諾' => '诺',
        '謀' => '谋',
        '謎' => '谜',
        '講' => '讲',
        '謝' => '谢',
        '譯' => '译',
        '議' => '议',
        '讓' => '让',
        '豐' => '丰',
        '豬' => '猪',
        '責' => '责',
        '貴' => '贵',
        '買' => '买',
        '費' => '费',
        '賀' => '贺',
        '賭' => '赌',
        '購' => '购',
        '趙' => '赵',
        '跡' => '迹',
        '蹤' => '踪',
        '軟' => '软',
        '較' => '较',
        '載' => '载',
        '輝' => '辉',
        '輸' => '输',
        '辦' => '办',
        '鄭' => '郑',
        '鄰' => '邻',
        '醜' => '丑',
        '針' => '针',
        '銀' => '银',
        '鍵' => '键',
        '鎮' => '镇',
        '鐘' => '钟',
        '閉' => '闭',
        '閣' => '阁',
        '陣' => '阵',
        '陸' => '陆',
        '陳' => '陈',
        '隨' => '随',
        '雖' => '虽',
        '靜' => '静',
        '韓' => '韩',
        '頁' => '页',
        '順' => '顺',
        '預' => '预',
        '領' => '领',
        '願' => '愿',
        '顯' => '显',
        '飄' => '飘',
        '餘' => '余',
        '館' => '馆',
        '騎' => '骑',
        '騙' => '骗',
        '驗' => '验',
        '鬧' => '闹',
        '鮮' => '鲜',
        '鷹' => '鹰',
        '麥' => '麦',
        '偵' => '侦',
        '俠' => '侠',
        '紳' => '绅',
        '魯' => '鲁',
        '賓' => '宾',
        _ => c,
    }
}

/// The Simplified form of a Traditional Chinese character (see `simplified`).
pub fn simplify_char(c: char) -> (r: char)
    ensures
        r == simplified(c),
{
    match c {
        '國' => '国',
        '們' => '们',
        '電' => '电',
        '愛' => '爱',
        '戰' => '战',
        '記' => '记',
        '話' => '话',
        '說' => '说',
        '夢' => '梦',
        '龍' => '龙',
        '鳳' => '凤',
        '華' => '华',
        '風' => '风',
        '雲' => '云',
        '門' => '门',
        '開' => '开',
        '關' => '关',
        '東' => '东',
        '車' => '车',
        '馬' => '马',
        '魚' => '鱼',
        '鳥' => '鸟',
        '島' => '岛',
        '葉' => '叶',
        '樂' => '乐',
        '書' => '书',
        '畫' => '画',
        '長' => '长',
        '時' => '时',
        '間' => '间',
        '無' => '无',
        '與' => '与',
        '為' => '为',
        '個' => '个',
        '來' => '来',
        '對' => '对',
        '會' => '会',
        '學' => '学',
        '這' => '这',
        '還' => '还',
        '進' => '进',
        '過' => '过',
        '運' => '运',
        '達' => '达',
        '遠' => '远',
        '遊' => '游',
        '邊' => '边',
        '圖' => '图',
        '園' => '园',
        '團' => '团',
        '場' => '场',
        '壞' => '坏',
        '聲' => '声',
        '處' => '处',
        '備' => '备',
        '傳' => '传',
        '僅' => '仅',
        '價' => '价',
        '億' => '亿',
        '兒' => '儿',
        '兩' => '两',
        '劇' => '剧',
        '劍' => '剑',
        '動' => '动',
        '勝' => '胜',
        '勞' => '劳',
        '區' => '区',
        '協' => '协',
        '單' => '单',
        '賣' => '卖',
        '歷' => '历',
        '參' => '参',
        '雙' => '双',
        '發' => '发',
        '變' => '变',
        '號' => '号',
        '嚇' => '吓',
        '喪' => '丧',
        '嚴' => '严',
        '後' => '后',
        '復' => '复',
        '戀' => '恋',
        '極' => '极',
        '樓' => '楼',
        '機' => '机',
        '殺' => '杀',
        '氣' => '气',
        '漢' => '汉',
        '滅' => '灭',
        '滿' => '满',
        '熱' => '热',
        '獄' => '狱',
        '獨' => '独',
        '獵' => '猎',
        '現' => '现',
        '環' => '环',
        '產' => '产',
        '當' => '当',
        '瘋' => '疯',
        '盜' => '盗',
        '眾' => '众',
        '確' => '确',
        '禮' => '礼',
        '紅' => '红',
        '純' => '纯',
        '級' => '级',
        '紀' => '纪',
        '約' => '约',
        '結' => '结',
        '絕' => '绝',
        '經' => '经',
        '綠' => '绿',
        '網' => '网',
        '緣' => '缘',
        '線' => '线',
        '練' => '练',
        '總' => '总',
        '織' => '织',
        '繼' => '继',
        '羅' => '罗',
        '義' => '义',
        '聖' => '圣',
        '聯' => '联',
        '聽' => '听',
        '職' => '职',
        '腦' => '脑',
        '興' => '兴',
        '舊' => '旧',
        '艦' => '舰',
        '藍' => '蓝',
        '藝' => '艺',
        '蘭' => '兰',
        '蟲' => '虫',
        '術' => '术',
        '衛' => '卫',
        '裝' => '装',
        '製' => '制',
        '親' => '亲',
        '覺' => '觉',
        '觀' => '观',
        '詩' => '诗',
        '誰' => '谁',
        '調' => '调',
        '談' => '谈',
        '請' => '请',
        '諜' => '谍',
        '證' => '证',
        '識' => '识',
        '護' => '护',
        '讀' => '读',
        '貓' => '猫',
        '貝' => '贝',
        '財' => '财',
        '貨' => '货',
        '賊' => '贼',
        '資' => '资',
        '質' => '质',
        '賽' => '赛',
        '贏' => '赢',
        '趕' => '赶',
        '軍' => '军',
        '輕' => '轻',
        '輪' => '轮',
        '轉' => '转',
        '農' => '农',
        '週' => '周',
        '醫' => '医',
        '釋' => '释',
        '鐵' => '铁',
        '鋼' => '钢',
        '錢' => '钱',
        '錯' => '错',
        '鏡' => '镜',
        '閃' => '闪',
        '闖' => '闯',
        '陽' => '阳',
        '陰' => '阴',
        '隊' => '队',
        '際' => '际',
        '險' => '险',
        '隱' => '隐',
        '雜' => '杂',
        '雞' => '鸡',
        '離' => '离',
        '難' => '难',
        '靈' => '灵',
        '響' => '响',
        '頂' => '顶',
        '頭' => '头',
        '顏' => '颜',
        '題' => '题',
        '類' => '类',
        '飛' => '飞',
        '飯' => '饭',
        '驚' => '惊',
        '體' => '体',
        '鬥' => '斗',
        '麗' => '丽',
        '黃' => '黄',
        '點' => '点',
        '黨' => '党',
        '齊' => '齐',
        '龜' => '龟',
        '帶' => '带',
        '師' => '师',
        '幾' => '几',
        '廣' => '广',
        '廳' => '厅',
        '張' => '张',
        '強' => '强',
        '彈' => '弹',
        '歸' => '归',
        '從' => '从',
        '憶' => '忆',
        '應' => '应',
        '懷' => '怀',
        '戲' => '戏',
        '擊' => '击',
        '據' => '据',
        '擁' => '拥',
        '敵' => '敌',
        '數' => '数',
        '斷' => '断',
        '曉' => '晓',
        '條' => '条',
        '業' => '业',
        '標' => '标',
        '樣' => '样',
        '權' => '权',
        '歡' => '欢',
        '歲' => '岁',
        '淚' => '泪',
        '潛' => '潜',
        '灣' => '湾',
        '燈' => '灯',
        '爺' => '爷',
        '牆' => '墙',
        '狀' => '状',
        '獅' => '狮',
        '獎' => '奖',
        '瑪' => '玛',
        '異' => '异',
        '療' => '疗',
        '盡' => '尽',
        '監' => '监',
        '碼' => '码',
        '視' => '视',
        '禍' => '祸',
        '種' => '种',
        '稱' => '称',
        '穩' => '稳',
        '筆' => '笔',
        '範' => '范',
        '簡' => '简',
        '紙' => '纸',
        '細' => '细',
        '終' => '终',
        '組' => '组',
        '給' => '给',
        '統' => '统',
        '絲' => '丝',
        '緊' => '紧',
        '編' => '编',
        '縣' => '县',
        '罰' => '罚',
        '習' => '习',
        '聞' => '闻',
        '膽' => '胆',
        '臉' => '脸',
        '臺' => '台',
        '蘋' => '苹',
        '蝦' => '虾',
        '襲' => '袭',
        '見' => '见',
        '規' => '规',
        '計' => '计',
        '設' => '设',
        '許' => '许',
        '訴' => '诉',
        '評' => '评',
        '試' => '试',
        '認' => '认',
        '語' => '语',
        '誤' => '误',
        '論' => '论',
        '諾' => '诺',
        '謀' => '谋',
        '謎' => '谜',
        '講' => '讲',
        '謝' => '谢',
        '譯' => '译',
        '議' => '议',
        '讓' => '让',
        '豐' => '丰',
        '豬' => '猪',
        '責' => '责',
        '貴' => '贵',
        '買' => '买',
        '費' => '费',
        '賀' => '贺',
        '賭' => '赌',
        '購' => '购',
        '趙' => '赵',
        '跡' => '迹',
        '蹤' => '踪',
        '軟' => '软',
        '較' => '较',
        '載' => '载',
        '輝' => '辉',
        '輸' => '输',
        '辦' => '办',
        '鄭' => '郑',
        '鄰' => '邻',
        '醜' => '丑',
        '針' => '针',
        '銀' => '银',
        '鍵' => '键',
        '鎮' => '镇',
        '鐘' => '钟',
        '閉' => '闭',
        '閣' => '阁',
        '陣' => '阵',
        '陸' => '陆',
        '陳' => '陈',
        '隨' => '随',
        '雖' => '虽',
        '靜' => '静',
        '韓' => '韩',
        '頁' => '页',
        '順' => '顺',
        '預' => '预',
        '領' => '领',
        '願' => '愿',
        '顯' => '显',
        '飄' => '飘',
        '餘' => '余',
        '館' => '馆',
        '騎' => '骑',
        '騙' => '骗',
        '驗' => '验',
        '鬧' => '闹',
        '鮮' => '鲜',
        '鷹' => '鹰',
        '麥' => '麦',
        '偵' => '侦',
        '俠' => '侠',
        '紳' => '绅',
        '魯' => '鲁',
        '賓' => '宾',
        _ => c,
    }
}

/// The comparison key of a trimmed, lower-case title: white space dropped
/// and Traditional characters written in their Simplified form.
pub open spec fn title_key_of_lowered(lowered: Seq<char>) -> Seq<char> {
    lowered.filter(|c: char| !is_ws(c)).map_values(|c: char| simplified(c))
}

/// The comparison key of a title: its normalized form (see `normalized`)
/// with Traditional characters written in their Simplified form.
pub open spec fn title_key(s: Seq<char>) -> Seq<char> {
    title_key_of_lowered(str_lowercase(trim(s)))
}

/// Check if two titles are the same when normalized, Traditional and
/// Simplified Chinese characters counting as the same.
pub fn titles_equivalent(a: &str, b: &str) -> (r: bool)
    ensures
        r == (title_key(a@) == title_key(b@)),
{
    let la = to_lower(&trim_chars(&chars_of(a)));
    let lb = to_lower(&trim_chars(&chars_of(b)));
    lowered_titles_equivalent(&la, &lb)
}

/// Whether two trimmed, lower-case titles have the same comparison key
/// (see `title_key_of_lowered`).
pub fn lowered_titles_equivalent(a: &Vec<char>, b: &Vec<char>) -> (r: bool)
    ensures
        r == (title_key_of_lowered(a@) == title_key_of_lowered(b@)),
{
    let ka = simplify_all(&remove_whitespace(a));
    let kb = simplify_all(&remove_whitespace(b));
    seq_eq(&ka, &kb)
}

/// Every character in its Simplified form.
fn simplify_all(v: &Vec<char>) -> (r: Vec<char>)
    ensures
        r@ == v@.map_values(|c: char| simplified(c)),
{
    let mut r: Vec<char> = Vec::new();
    let mut i: usize = 0;
    while i < v.len()
        invariant
            i <= v@.len(),
            r@ == v@.take(i as int).map_values(|c: char| simplified(c)),
        decreases v@.len() - i,
    {
        r.push(simplify_char(v[i]));
        assert(v@.take(i + 1).map_values(|c: char| simplified(c)) =~= v@.take(i as int).map_values(
            |c: char| simplified(c),
        ).push(simplified(v@[i as int])));
        i = i + 1;
    }
    assert(v@.take(v@.len() as int) =~= v@);
    r
}

/// Removes every white-space character.
pub fn remove_whitespace(v: &Vec<char>) -> (r: Vec<char>)
    ensures
        r@ == v@.filter(|c: char| !is_ws(c)),
{
    let ghost pred = |c: char| !is_ws(c);
    let mut r: Vec<char> = Vec::new();
    let mut i: usize = 0;
    while i < v.len()
        invariant
            i <= v.len(),
            r@ == v@.take(i as int).filter(pred),
            pred == (|c: char| !is_ws(c)),
        decreases v.len() - i,
    {
        proof {
            v@.take(i as int).lemma_filter_push(v@[i as int], pred);
            assert(v@.take(i as int).push(v@[i as int]) =~= v@.take(i + 1));
            assert(pred(v@[i as int]) == !is_ws(v@[i as int]));
        }
        if !is_whitespace(v[i]) {
            r.push(v[i]);
        }
        i = i + 1;
    }
    assert(v@.take(v.len() as int) =~= v@);
    r
}

/// Normalize a string for comparison.
pub fn normalize(s: &str) -> (r: String)
    ensures
        r@ == normalized(s@),
{
    let cs = chars_of(s);
    let t = trim_chars(&cs);
    let l = to_lower(&t);
    let f = remove_whitespace(&l);
    string_of(&f)
}

/// Check if a string contains Chinese characters.
pub fn contains_chinese(s: &str) -> (r: bool)
    ensures
        r == exists|i: int| 0 <= i < s@.len() && is_chinese(#[trigger] s@[i]),
{
    let cs = chars_of(s);
    let mut i: usize = 0;
    while i < cs.len()
        invariant
            i <= cs.len(),
            cs@ == s@,
            forall|k: int| 0 <= k < i ==> !is_chinese(#[trigger] s@[k]),
        decreases cs.len() - i,
    {
        if is_chinese_char(cs[i]) {
            return true;
        }
        i = i + 1;
    }
    false
}

/// Check if a character is a Chinese character.
fn is_chinese_char(c: char) -> (r: bool)
    ensures
        r == is_chinese(c),
{
    let u = c as u32;
    (0x4E00 <= u && u <= 0x9FFF) || (0x3400 <= u && u <= 0x4DBF) || (0xF900 <= u && u <= 0xFAFF)
        || (0x20000 <= u && u <= 0x2A6DF)
}

} // verus!

use weight_backtest::types::{Direction, MetricKey};

#[test]
fn directions_have_their_names() {
    assert_eq!(Direction::Long.as_str(), "Long");
    assert_eq!(Direction::Short.as_str(), "Short");
    assert_eq!(Direction::LongShort.as_str(), "LongShort");
}

#[test]
fn directions_have_their_event_sequences() {
    assert_eq!(Direction::Long.event_sequence(), "开多 -> 平多");
    assert_eq!(Direction::Short.event_sequence(), "开空 -> 平空");
    assert_eq!(Direction::LongShort.event_sequence(), "");
}

#[test]
fn metric_keys_have_their_labels() {
    let labelled = [
        (MetricKey::TradeProfit, "单笔收益"),
        (MetricKey::HoldingBars, "持仓K线数"),
        (MetricKey::WinRate, "交易胜率"),
        (MetricKey::HoldingDays, "持仓天数"),
        (MetricKey::LongRatio, "多头占比"),
        (MetricKey::ShortRatio, "空头占比"),
        (MetricKey::VolatilityRatio, "波动比"),
        (MetricKey::VolatilityCorrelation, "与基准波动相关性"),
        (MetricKey::ReturnCorrelation, "与基准收益相关性"),
        (MetricKey::BearCorrelation, "与基准空头相关性"),
        (MetricKey::SymbolCount, "品种数量"),
        (MetricKey::MaxDrawdown, "最大回撤"),
        (MetricKey::SharpeRatio, "夏普比率"),
        (MetricKey::StartDate, "起始日期"),
        (MetricKey::EndDate, "结束日期"),
    ];
    for (key, label) in labelled {
        assert_eq!(key.as_str(), label);
        assert_eq!(key.to_string(), label.to_string());
    }
}

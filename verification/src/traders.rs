pub mod fast_stochastic_oscillator;
pub mod money_flow_index;
pub mod percentage_price_oscillator;
pub mod relative_strength_index;
pub mod slow_stochastic_oscillator;
